use calamine::{Cell, CellErrorType, Data, Range};
use sheet_schema::alias::alias_for_name;
use sheet_schema::overrides::{clone_key, DTypeMap};
use sheet_schema::schema::{dtype_for_column, schema_from_column_names_and_range};
use sheet_schema::selection::{contains_index, contains_name, position_of_name, SelectedColumns};
use sheet_schema::types::{CellError, DType, Field, IdxOrName, SchemaError};

fn names(list: &[&str]) -> Vec<String> {
    list.iter().map(|name| name.to_string()).collect()
}

fn field(name: &str, dtype: DType) -> Field {
    Field { name: name.to_string(), dtype }
}

fn three_columns() -> Range<Data> {
    Range::from_sparse(vec![
        Cell::new((0, 0), Data::Int(1)),
        Cell::new((0, 1), Data::String("a".to_string())),
        Cell::new((0, 2), Data::Int(10)),
        Cell::new((1, 0), Data::Int(2)),
        Cell::new((1, 1), Data::String("b".to_string())),
        Cell::new((1, 2), Data::Float(1.5)),
        Cell::new((2, 0), Data::Int(3)),
        Cell::new((2, 1), Data::String("c".to_string())),
        Cell::new((2, 2), Data::Empty),
    ])
}

#[test]
fn alias_probes_in_order() {
    assert_eq!(alias_for_name("x", &names(&[])), "x");
    assert_eq!(alias_for_name("x", &names(&["x"])), "x_1");
    assert_eq!(alias_for_name("x", &names(&["x", "x_1"])), "x_2");
}

#[test]
fn alias_takes_the_first_free_suffix() {
    assert_eq!(alias_for_name("x", &names(&["x", "x_2"])), "x_1");
    assert_eq!(alias_for_name("x", &names(&["x_1"])), "x");
    assert_eq!(alias_for_name("x", &names(&["y", "x_1", "x"])), "x_2");
    assert_eq!(alias_for_name("", &names(&[""])), "_1");
    let mut taken = names(&["c"]);
    for depth in 1..12 {
        taken.push(format!("c_{depth}"));
    }
    assert_eq!(alias_for_name("c", &taken), "c_12");
}

#[test]
fn duplicate_names_get_aliases() {
    let schema = schema_from_column_names_and_range(
        &three_columns(),
        &names(&["id", "id", "val"]),
        0,
        3,
        &SelectedColumns::All,
        None,
    );
    assert_eq!(
        schema,
        Ok(vec![field("id", DType::Int), field("id_1", DType::String), field("val", DType::Float)])
    );
}

#[test]
fn alias_counts_emitted_names_only() {
    let schema = schema_from_column_names_and_range(
        &three_columns(),
        &names(&["a", "a_1", "a"]),
        0,
        3,
        &SelectedColumns::ByIndex(vec![0, 2]),
        None,
    );
    assert_eq!(schema, Ok(vec![field("a", DType::Int), field("a_1", DType::Float)]));
}

#[test]
fn selection_by_name_keeps_one_column() {
    for declared in [["a", "b", "c"], ["c", "b", "a"]] {
        let schema = schema_from_column_names_and_range(
            &three_columns(),
            &names(&declared),
            0,
            3,
            &SelectedColumns::ByName(names(&["b"])),
            None,
        );
        assert_eq!(schema, Ok(vec![field("b", DType::String)]));
    }
    let selection = SelectedColumns::ByName(names(&["b"]));
    assert_eq!(selection.idx_for_column(&names(&["a", "b", "c"]), "b", 1), Some(1));
    assert_eq!(selection.idx_for_column(&names(&["a", "b", "c"]), "a", 0), None);
    assert_eq!(selection.idx_for_column(&names(&["a", "b", "c"]), "c", 2), None);
}

#[test]
fn selection_by_name_reads_the_first_column_of_that_name() {
    let selection = SelectedColumns::ByName(names(&["b"]));
    assert_eq!(selection.idx_for_column(&names(&["b", "a", "b"]), "b", 2), Some(0));
    assert_eq!(selection.idx_for_column(&names(&["a", "c"]), "b", 0), None);
}

#[test]
fn selection_by_index_and_all() {
    let declared = names(&["a", "b", "c"]);
    let by_index = SelectedColumns::ByIndex(vec![2, 0]);
    assert_eq!(by_index.idx_for_column(&declared, "a", 0), Some(0));
    assert_eq!(by_index.idx_for_column(&declared, "b", 1), None);
    assert_eq!(by_index.idx_for_column(&declared, "c", 2), Some(2));
    assert_eq!(SelectedColumns::All.idx_for_column(&declared, "b", 1), Some(1));
    let schema = schema_from_column_names_and_range(
        &three_columns(),
        &declared,
        0,
        3,
        &by_index,
        None,
    );
    assert_eq!(schema, Ok(vec![field("a", DType::Int), field("c", DType::Float)]));
}

#[test]
fn list_lookups() {
    let list = names(&["a", "b", "a"]);
    assert!(contains_name(&list, "b"));
    assert!(!contains_name(&list, "c"));
    assert_eq!(position_of_name(&list, "a"), Some(0));
    assert_eq!(position_of_name(&list, "b"), Some(1));
    assert_eq!(position_of_name(&list, "ab"), None);
    assert!(contains_index(&[3, 1], 1));
    assert!(!contains_index(&[3, 1], 2));
}

#[test]
fn override_by_name_wins_over_index() {
    let mut map = DTypeMap::new();
    map.insert(IdxOrName::Idx(0), DType::Float);
    map.insert(IdxOrName::Name("id".to_string()), DType::String);
    let range = three_columns();
    assert_eq!(
        dtype_for_column(&range, 0, 3, &SelectedColumns::All, Some(&map), 0, "id"),
        Ok(DType::String)
    );
    assert_eq!(
        dtype_for_column(&range, 0, 3, &SelectedColumns::All, Some(&map), 0, "other"),
        Ok(DType::Float)
    );
    assert_eq!(
        dtype_for_column(&range, 0, 3, &SelectedColumns::All, Some(&map), 1, "other"),
        Ok(DType::String)
    );
    let schema = schema_from_column_names_and_range(
        &range,
        &names(&["id", "name", "val"]),
        0,
        3,
        &SelectedColumns::All,
        Some(&map),
    );
    assert_eq!(
        schema,
        Ok(vec![
            field("id", DType::String),
            field("name", DType::String),
            field("val", DType::Float)
        ])
    );
}

#[test]
fn lookup_order_follows_the_selection() {
    let mut map = DTypeMap::new();
    map.insert(IdxOrName::Idx(0), DType::Float);
    map.insert(IdxOrName::Name("id".to_string()), DType::String);
    let range = three_columns();
    let by_name = SelectedColumns::ByName(names(&["id", "val"]));
    let by_index = SelectedColumns::ByIndex(vec![0, 2]);
    assert_eq!(dtype_for_column(&range, 0, 3, &by_name, Some(&map), 0, "id"), Ok(DType::String));
    assert_eq!(dtype_for_column(&range, 0, 3, &by_name, Some(&map), 0, "x"), Ok(DType::Int));
    assert_eq!(dtype_for_column(&range, 0, 3, &by_index, Some(&map), 0, "id"), Ok(DType::Float));
    assert_eq!(dtype_for_column(&range, 0, 3, &by_index, Some(&map), 2, "id"), Ok(DType::Float));
    assert_eq!(dtype_for_column(&range, 0, 3, &by_index, None, 0, "id"), Ok(DType::Int));
}

#[test]
fn override_skips_the_scan() {
    let mut map = DTypeMap::new();
    map.insert(IdxOrName::Name("far".to_string()), DType::Date);
    let schema = schema_from_column_names_and_range(
        &three_columns(),
        &names(&["a", "b", "c", "far"]),
        0,
        3,
        &SelectedColumns::ByName(names(&["far"])),
        Some(&map),
    );
    assert_eq!(schema, Ok(vec![field("far", DType::Date)]));
}

#[test]
fn later_override_replaces_earlier() {
    let mut map = DTypeMap::new();
    assert_eq!(map.dtype_for_col_name("a"), None);
    map.insert(IdxOrName::Name("a".to_string()), DType::Int);
    map.insert(IdxOrName::Idx(4), DType::Bool);
    map.insert(IdxOrName::Name("a".to_string()), DType::Duration);
    assert_eq!(map.dtype_for_col_name("a"), Some(DType::Duration));
    assert_eq!(map.dtype_for_col_name("b"), None);
    assert_eq!(map.dtype_for_col_idx(4), Some(DType::Bool));
    assert_eq!(map.dtype_for_col_idx(0), None);
    assert_eq!(clone_key(&IdxOrName::Idx(4)), IdxOrName::Idx(4));
    assert_eq!(clone_key(&IdxOrName::Name("a".to_string())), IdxOrName::Name("a".to_string()));
}

#[test]
fn overrides_from_type_names() {
    let map = DTypeMap::from_names(vec![
        (IdxOrName::Name("a".to_string()), "int".to_string()),
        (IdxOrName::Idx(1), "boolean".to_string()),
        (IdxOrName::Name("a".to_string()), "datetime".to_string()),
    ])
    .unwrap();
    assert_eq!(map.dtype_for_col_name("a"), Some(DType::DateTime));
    assert_eq!(map.dtype_for_col_idx(1), Some(DType::Bool));
    let refused = DTypeMap::from_names(vec![
        (IdxOrName::Idx(0), "int".to_string()),
        (IdxOrName::Idx(1), "integer".to_string()),
        (IdxOrName::Idx(2), "bool".to_string()),
    ]);
    assert_eq!(refused.err(), Some(SchemaError::InvalidTypeName("integer".to_string())));
    let empty = DTypeMap::from_names(vec![]).unwrap();
    assert_eq!(empty.dtype_for_col_name("a"), None);
    assert_eq!(empty.dtype_for_col_idx(0), None);
}

#[test]
fn type_names_round_trip() {
    let vocabulary = [
        ("null", DType::Null),
        ("int", DType::Int),
        ("float", DType::Float),
        ("string", DType::String),
        ("boolean", DType::Bool),
        ("datetime", DType::DateTime),
        ("date", DType::Date),
        ("duration", DType::Duration),
    ];
    for (name, dtype) in vocabulary {
        assert_eq!(DType::from_str(name), Ok(dtype));
        assert_eq!(dtype.to_string(), name);
    }
    for name in ["", "Int", "bool", "str", "int ", "timestamp"] {
        assert_eq!(DType::from_str(name), Err(SchemaError::InvalidTypeName(name.to_string())));
    }
}

#[test]
fn any_failure_aborts_the_schema() {
    let range = Range::from_sparse(vec![
        Cell::new((0, 0), Data::Int(1)),
        Cell::new((0, 1), Data::Error(CellErrorType::Div0)),
        Cell::new((0, 2), Data::Int(3)),
    ]);
    let declared = names(&["a", "b", "c"]);
    assert_eq!(
        schema_from_column_names_and_range(&range, &declared, 0, 1, &SelectedColumns::All, None),
        Err(SchemaError::UnsupportedCellError(CellError::Div0))
    );
    assert_eq!(
        schema_from_column_names_and_range(&range, &declared, 0, 2, &SelectedColumns::All, None),
        Err(SchemaError::CellOutOfRange(1, 0))
    );
    assert_eq!(
        schema_from_column_names_and_range(
            &range,
            &names(&["a", "b", "c", "d"]),
            0,
            1,
            &SelectedColumns::ByIndex(vec![0, 3]),
            None
        ),
        Err(SchemaError::CellOutOfRange(0, 3))
    );
    assert_eq!(
        schema_from_column_names_and_range(
            &range,
            &declared,
            0,
            1,
            &SelectedColumns::ByIndex(vec![0, 2]),
            None
        ),
        Ok(vec![field("a", DType::Int), field("c", DType::Int)])
    );
}

#[test]
fn no_columns_no_fields() {
    let schema = schema_from_column_names_and_range(
        &three_columns(),
        &names(&[]),
        0,
        3,
        &SelectedColumns::All,
        None,
    );
    assert_eq!(schema, Ok(vec![]));
}
