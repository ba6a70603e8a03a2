//! The schema builder: the ordered, uniquely named fields of the selected
//! columns of a source.

use vstd::prelude::*;
use crate::alias::{alias_for_name, alias_of, lemma_alias_is_free};
use crate::overrides::{ColumnKey, DTypeMap};
use crate::resolve::{column_dtype, get_dtype_for_column};
use crate::selection::{texts, SelectedColumns};
use crate::types::{DType, Field, SchemaError};

verus! {

impl View for Field {
    type V = (Seq<char>, DType);

    open spec fn view(&self) -> (Seq<char>, DType) {
        (self.name@, self.dtype)
    }
}

/// The fields of a schema as pairs of display name and type.
pub open spec fn fields_view(fields: Seq<Field>) -> Seq<(Seq<char>, DType)> {
    fields.map_values(|field: Field| field@)
}

/// The display names of a list of fields.
pub open spec fn field_names(fields: Seq<(Seq<char>, DType)>) -> Seq<Seq<char>> {
    fields.map_values(|field: (Seq<char>, DType)| field.0)
}

/// What a caller's overrides amount to; none where there are no overrides.
pub open spec fn overrides_view(dtypes: Option<&DTypeMap>) -> Map<ColumnKey, DType> {
    match dtypes {
        Some(map) => map@,
        None => Map::empty(),
    }
}

/// The override that applies to a column, by the lookup order of the
/// selection: with `All` the name first and then the position, with `ByName`
/// the name only, with `ByIndex` the position only.
pub open spec fn override_for(
    selection: SelectedColumns,
    overrides: Map<ColumnKey, DType>,
    col_idx: usize,
    col_name: Seq<char>,
) -> Option<DType> {
    match selection {
        SelectedColumns::All => if overrides.contains_key(ColumnKey::Name(col_name)) {
            Some(overrides[ColumnKey::Name(col_name)])
        } else {
            overrides.get(ColumnKey::Idx(col_idx))
        },
        SelectedColumns::ByName(_) => overrides.get(ColumnKey::Name(col_name)),
        SelectedColumns::ByIndex(_) => overrides.get(ColumnKey::Idx(col_idx)),
    }
}

/// The type of a selected column: its override where one applies, and
/// otherwise what the cells of the row range resolve to.
pub open spec fn column_type(
    range: calamine::Range<calamine::Data>,
    row_idx: usize,
    row_limit: usize,
    selection: SelectedColumns,
    overrides: Map<ColumnKey, DType>,
    col_idx: usize,
    col_name: Seq<char>,
) -> Result<DType, SchemaError> {
    match override_for(selection, overrides, col_idx, col_name) {
        Some(dtype) => Ok(dtype),
        None => column_dtype(range, row_idx, row_limit, col_idx),
    }
}

/// The schema of the first `upto` declared columns: the fields of the
/// selected ones in declared order, each named apart from the fields before
/// it, or the error of the first column whose type cannot be had.
pub open spec fn schema_of(
    range: calamine::Range<calamine::Data>,
    column_names: Seq<Seq<char>>,
    upto: int,
    row_idx: usize,
    row_limit: usize,
    selection: SelectedColumns,
    overrides: Map<ColumnKey, DType>,
) -> Result<Seq<(Seq<char>, DType)>, SchemaError>
    decreases upto,
{
    if upto <= 0 {
        Ok(Seq::empty())
    } else {
        let name = column_names[upto - 1];
        match schema_of(range, column_names, upto - 1, row_idx, row_limit, selection, overrides) {
            Err(error) => Err(error),
            Ok(fields) => match selection.source_index(column_names, name, (upto - 1) as usize) {
                None => Ok(fields),
                Some(col_idx) => match column_type(
                    range,
                    row_idx,
                    row_limit,
                    selection,
                    overrides,
                    col_idx,
                    name,
                ) {
                    Err(error) => Err(error),
                    Ok(dtype) => Ok(fields.push((alias_of(name, field_names(fields)), dtype))),
                },
            },
        }
    }
}

/// A failure among the first columns is the failure of the whole schema.
pub proof fn lemma_failure_is_final(
    range: calamine::Range<calamine::Data>,
    column_names: Seq<Seq<char>>,
    failed: int,
    upto: int,
    row_idx: usize,
    row_limit: usize,
    selection: SelectedColumns,
    overrides: Map<ColumnKey, DType>,
)
    requires
        failed <= upto,
        schema_of(range, column_names, failed, row_idx, row_limit, selection, overrides) is Err,
    ensures
        schema_of(range, column_names, upto, row_idx, row_limit, selection, overrides) == schema_of(
            range,
            column_names,
            failed,
            row_idx,
            row_limit,
            selection,
            overrides,
        ),
    decreases upto - failed,
{
    if failed < upto {
        lemma_failure_is_final(
            range,
            column_names,
            failed,
            upto - 1,
            row_idx,
            row_limit,
            selection,
            overrides,
        );
    }
}

/// No two fields of a schema share a display name, and a schema has at most
/// one field for each declared column.
pub proof fn lemma_schema_names_distinct(
    range: calamine::Range<calamine::Data>,
    column_names: Seq<Seq<char>>,
    upto: int,
    row_idx: usize,
    row_limit: usize,
    selection: SelectedColumns,
    overrides: Map<ColumnKey, DType>,
)
    requires
        0 <= upto,
    ensures
        match schema_of(range, column_names, upto, row_idx, row_limit, selection, overrides) {
            Ok(fields) => field_names(fields).no_duplicates() && fields.len() <= upto,
            Err(_) => true,
        },
    decreases upto,
{
    if upto > 0 {
        lemma_schema_names_distinct(
            range,
            column_names,
            upto - 1,
            row_idx,
            row_limit,
            selection,
            overrides,
        );
        let name = column_names[upto - 1];
        match schema_of(range, column_names, upto - 1, row_idx, row_limit, selection, overrides) {
            Ok(fields) => {
                let taken = field_names(fields);
                lemma_alias_is_free(name, taken);
                match schema_of(
                    range,
                    column_names,
                    upto,
                    row_idx,
                    row_limit,
                    selection,
                    overrides,
                ) {
                    Ok(longer) => {
                        if longer != fields {
                            assert(field_names(longer) =~= taken.push(alias_of(name, taken)));
                        }
                    },
                    Err(_) => {},
                }
            },
            Err(_) => {},
        }
    }
}

/// With every column selected, an override by name goes before an override
/// by position for the same column.
pub proof fn lemma_name_override_wins(
    range: calamine::Range<calamine::Data>,
    row_idx: usize,
    row_limit: usize,
    overrides: Map<ColumnKey, DType>,
    col_idx: usize,
    col_name: Seq<char>,
)
    requires
        overrides.contains_key(ColumnKey::Name(col_name)),
    ensures
        column_type(
            range,
            row_idx,
            row_limit,
            SelectedColumns::All,
            overrides,
            col_idx,
            col_name,
        ) == Ok::<DType, SchemaError>(overrides[ColumnKey::Name(col_name)]),
{
}

/// The type of one selected column: the override that the selection's lookup
/// order finds first, and without one the type resolved from the cells.
pub fn dtype_for_column(
    range: &calamine::Range<calamine::Data>,
    row_idx: usize,
    row_limit: usize,
    selected_columns: &SelectedColumns,
    dtypes: Option<&DTypeMap>,
    col_idx: usize,
    col_name: &str,
) -> (dtype: Result<DType, SchemaError>)
    ensures
        dtype == column_type(
            *range,
            row_idx,
            row_limit,
            *selected_columns,
            overrides_view(dtypes),
            col_idx,
            col_name@,
        ),
{
    let found = match dtypes {
        None => None,
        Some(map) => match selected_columns {
            SelectedColumns::All => match map.dtype_for_col_name(col_name) {
                Some(by_name) => Some(by_name),
                None => map.dtype_for_col_idx(col_idx),
            },
            SelectedColumns::ByName(_) => map.dtype_for_col_name(col_name),
            SelectedColumns::ByIndex(_) => map.dtype_for_col_idx(col_idx),
        },
    };
    match found {
        Some(dtype) => Ok(dtype),
        None => get_dtype_for_column(range, row_idx, row_limit, col_idx),
    }
}

/// Builds the schema of the selected columns. Columns come in declared
/// order; one that is not selected leaves no field; the first column whose
/// type cannot be had fails the whole schema. No two fields share a name.
pub fn schema_from_column_names_and_range(
    range: &calamine::Range<calamine::Data>,
    column_names: &[String],
    row_idx: usize,
    row_limit: usize,
    selected_columns: &SelectedColumns,
    dtypes: Option<&DTypeMap>,
) -> (schema: Result<Vec<Field>, SchemaError>)
    ensures
        match schema {
            Ok(fields) => schema_of(
                *range,
                texts(column_names@),
                column_names.len() as int,
                row_idx,
                row_limit,
                *selected_columns,
                overrides_view(dtypes),
            ) == Ok::<Seq<(Seq<char>, DType)>, SchemaError>(fields_view(fields@)) && field_names(
                fields_view(fields@),
            ).no_duplicates(),
            Err(error) => schema_of(
                *range,
                texts(column_names@),
                column_names.len() as int,
                row_idx,
                row_limit,
                *selected_columns,
                overrides_view(dtypes),
            ) == Err::<Seq<(Seq<char>, DType)>, SchemaError>(error),
        },
{
    let ghost declared = texts(column_names@);
    let ghost overrides = overrides_view(dtypes);
    let mut fields: Vec<Field> = Vec::new();
    let mut existing_names: Vec<String> = Vec::new();
    let mut idx: usize = 0;
    assert(fields_view(fields@) =~= Seq::empty());
    while idx < column_names.len()
        invariant
            idx <= column_names.len(),
            declared == texts(column_names@),
            overrides == overrides_view(dtypes),
            schema_of(
                *range,
                declared,
                idx as int,
                row_idx,
                row_limit,
                *selected_columns,
                overrides,
            ) == Ok::<Seq<(Seq<char>, DType)>, SchemaError>(fields_view(fields@)),
            texts(existing_names@) == field_names(fields_view(fields@)),
            texts(existing_names@).no_duplicates(),
        decreases column_names.len() - idx,
    {
        let name = column_names[idx].as_str();
        assert(name@ == declared[idx as int]);
        if let Some(col_idx) = selected_columns.idx_for_column(column_names, name, idx) {
            match dtype_for_column(
                range,
                row_idx,
                row_limit,
                selected_columns,
                dtypes,
                col_idx,
                name,
            ) {
                Err(error) => {
                    proof {
                        lemma_failure_is_final(
                            *range,
                            declared,
                            idx + 1,
                            column_names.len() as int,
                            row_idx,
                            row_limit,
                            *selected_columns,
                            overrides,
                        );
                    }
                    return Err(error);
                },
                Ok(dtype) => {
                    let aliased_name = alias_for_name(name, existing_names.as_slice());
                    let ghost before = fields_view(fields@);
                    let ghost taken = texts(existing_names@);
                    fields.push(Field { name: aliased_name.clone(), dtype });
                    existing_names.push(aliased_name);
                    proof {
                        assert(fields_view(fields@) =~= before.push((aliased_name@, dtype)));
                        assert(texts(existing_names@) =~= taken.push(aliased_name@));
                        assert(field_names(fields_view(fields@)) =~= taken.push(aliased_name@));
                    }
                },
            }
        }
        idx += 1;
    }
    Ok(fields)
}

} // verus!
