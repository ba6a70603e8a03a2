//! Which declared columns take part in a schema, and the type overrides a
//! caller may give for them.

use vstd::prelude::*;
use crate::types::str_eq;

verus! {

/// The columns that take part in a schema.
#[derive(Debug, Clone, PartialEq, Eq)]
pub enum SelectedColumns {
    /// Every declared column.
    All,
    /// The declared columns with one of these names.
    ByName(Vec<String>),
    /// The declared columns at one of these positions.
    ByIndex(Vec<usize>),
}

/// The views of the strings of a list.
pub open spec fn texts(names: Seq<String>) -> Seq<Seq<char>> {
    names.map_values(|name: String| name@)
}

/// Tells whether one of `names` reads `name`.
pub fn contains_name(names: &[String], name: &str) -> (found: bool)
    ensures
        found == texts(names@).contains(name@),
{
    position_of_name(names, name).is_some()
}

/// The position of the first of `names` that reads `name`.
pub fn position_of_name(names: &[String], name: &str) -> (position: Option<usize>)
    ensures
        match position {
            Some(at) => at < names.len() && names[at as int]@ == name@ && forall|i: int|
                0 <= i < at ==> names[i]@ != name@,
            None => forall|i: int| 0 <= i < names.len() ==> names[i]@ != name@,
        },
        position is Some == texts(names@).contains(name@),
{
    let mut i: usize = 0;
    while i < names.len()
        invariant
            i <= names.len(),
            forall|k: int| 0 <= k < i ==> names[k]@ != name@,
        decreases names.len() - i,
    {
        if str_eq(names[i].as_str(), name) {
            proof {
                assert(texts(names@)[i as int] == name@);
            }
            return Some(i);
        }
        i += 1;
    }
    proof {
        if texts(names@).contains(name@) {
            let k = choose|k: int| 0 <= k < texts(names@).len() && texts(names@)[k] == name@;
            assert(names[k]@ == name@);
        }
    }
    None
}

/// Tells whether `index` is one of `indices`.
pub fn contains_index(indices: &[usize], index: usize) -> (found: bool)
    ensures
        found == indices@.contains(index),
{
    let mut i: usize = 0;
    while i < indices.len()
        invariant
            i <= indices.len(),
            forall|k: int| 0 <= k < i ==> indices[k] != index,
        decreases indices.len() - i,
    {
        if indices[i] == index {
            return true;
        }
        i += 1;
    }
    false
}

impl SelectedColumns {
    /// The source column of the declared column `col_name` at position
    /// `col_idx`, or `None` where the column takes no part.
    pub open spec fn source_index(
        self,
        col_names: Seq<Seq<char>>,
        col_name: Seq<char>,
        col_idx: usize,
    ) -> Option<usize> {
        match self {
            SelectedColumns::All => Some(col_idx),
            SelectedColumns::ByName(names) => if texts(names@).contains(col_name)
                && col_names.contains(col_name) {
                Some(col_names.index_of_first(col_name)->Some_0 as usize)
            } else {
                None
            },
            SelectedColumns::ByIndex(indices) => if indices@.contains(col_idx) {
                Some(col_idx)
            } else {
                None
            },
        }
    }

    /// Decides whether a declared column takes part, and which source column
    /// it reads. With `All` every column reads its own position; with
    /// `ByIndex` a selected position reads itself; with `ByName` a selected
    /// name reads the first declared column of that name.
    pub fn idx_for_column(&self, col_names: &[String], col_name: &str, col_idx: usize) -> (source:
        Option<usize>)
        ensures
            source == self.source_index(texts(col_names@), col_name@, col_idx),
            self is ByName ==> match source {
                Some(at) => at < col_names.len() && col_names[at as int]@ == col_name@ && forall|
                    i: int,
                | 0 <= i < at ==> col_names[i]@ != col_name@,
                None => true,
            },
    {
        match self {
            SelectedColumns::All => Some(col_idx),
            SelectedColumns::ByName(names) => {
                if contains_name(names.as_slice(), col_name) {
                    let position = position_of_name(col_names, col_name);
                    proof {
                        let declared = texts(col_names@);
                        declared.index_of_first_ensures(col_name@);
                        if let Some(at) = position {
                            let first = declared.index_of_first(col_name@)->Some_0;
                            assert(declared[at as int] == col_name@);
                            assert(declared[first] == col_name@);
                            assert(col_names[first]@ == col_name@);
                            assert(first == at);
                        }
                    }
                    position
                } else {
                    None
                }
            },
            SelectedColumns::ByIndex(indices) => {
                if contains_index(indices.as_slice(), col_idx) {
                    Some(col_idx)
                } else {
                    None
                }
            },
        }
    }
}

} // verus!
