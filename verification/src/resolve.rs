//! Sets of column types, the promotion lattice, and the resolution of a
//! column's type from the cells of a row range.

use vstd::prelude::*;
use crate::classify::{classify_at, get_cell_dtype};
use crate::source::range_cells;
use crate::types::{DType, SchemaError, TypeSet};

verus! {

impl TypeSet {
    /// Whether the flag of `dtype` is set.
    pub open spec fn has(self, dtype: DType) -> bool {
        match dtype {
            DType::Null => self.null,
            DType::Int => self.int,
            DType::Float => self.float,
            DType::String => self.string,
            DType::Bool => self.boolean,
            DType::DateTime => self.datetime,
            DType::Date => self.date,
            DType::Duration => self.duration,
        }
    }

    /// The empty set.
    pub fn new() -> (set: TypeSet)
        ensures
            set@ == Set::<DType>::empty(),
    {
        let set = TypeSet {
            null: false,
            int: false,
            float: false,
            string: false,
            boolean: false,
            datetime: false,
            date: false,
            duration: false,
        };
        assert(set@ =~= Set::<DType>::empty());
        set
    }

    /// Tells whether `dtype` is a member.
    pub fn contains(&self, dtype: DType) -> (found: bool)
        ensures
            found == self@.contains(dtype),
    {
        match dtype {
            DType::Null => self.null,
            DType::Int => self.int,
            DType::Float => self.float,
            DType::String => self.string,
            DType::Bool => self.boolean,
            DType::DateTime => self.datetime,
            DType::Date => self.date,
            DType::Duration => self.duration,
        }
    }

    /// Adds `dtype`; a type already present stays once.
    pub fn insert(&mut self, dtype: DType)
        ensures
            final(self)@ == old(self)@.insert(dtype),
    {
        match dtype {
            DType::Null => self.null = true,
            DType::Int => self.int = true,
            DType::Float => self.float = true,
            DType::String => self.string = true,
            DType::Bool => self.boolean = true,
            DType::DateTime => self.datetime = true,
            DType::Date => self.date = true,
            DType::Duration => self.duration = true,
        }
        assert(self@ =~= old(self)@.insert(dtype));
    }

    /// Takes `dtype` out; an absent type changes nothing.
    pub fn remove(&mut self, dtype: DType)
        ensures
            final(self)@ == old(self)@.remove(dtype),
    {
        match dtype {
            DType::Null => self.null = false,
            DType::Int => self.int = false,
            DType::Float => self.float = false,
            DType::String => self.string = false,
            DType::Bool => self.boolean = false,
            DType::DateTime => self.datetime = false,
            DType::Date => self.date = false,
            DType::Duration => self.duration = false,
        }
        assert(self@ =~= old(self)@.remove(dtype));
    }

    /// Tells whether the set has no member.
    pub fn is_empty(&self) -> (empty: bool)
        ensures
            empty == no_types(self@),
    {
        let empty = !(self.null || self.int || self.float || self.string || self.boolean
            || self.datetime || self.date || self.duration);
        proof {
            self.lemma_members();
        }
        empty
    }

    /// The member of a set that has exactly one, and `None` for any other
    /// set.
    pub fn single(&self) -> (only: Option<DType>)
        ensures
            match only {
                Some(dtype) => only_type(self@, dtype),
                None => !is_singleton(self@),
            },
    {
        let mut probe = TypeSet::new();
        let mut found: Option<DType> = None;
        if self.null {
            found = Some(DType::Null);
        } else if self.int {
            found = Some(DType::Int);
        } else if self.float {
            found = Some(DType::Float);
        } else if self.string {
            found = Some(DType::String);
        } else if self.boolean {
            found = Some(DType::Bool);
        } else if self.datetime {
            found = Some(DType::DateTime);
        } else if self.date {
            found = Some(DType::Date);
        } else if self.duration {
            found = Some(DType::Duration);
        }
        proof {
            self.lemma_members();
        }
        match found {
            Some(dtype) => {
                probe.insert(dtype);
                if probe.is_subset(self) && self.is_subset(&probe) {
                    Some(dtype)
                } else {
                    proof {
                        assert forall|other: DType| !only_type(self@, other) by {
                            if only_type(self@, other) {
                                assert(self@.contains(dtype));
                                assert(other == dtype);
                                assert(probe@ =~= set![dtype]);
                                assert(self@.subset_of(probe@));
                            }
                        }
                    }
                    None
                }
            },
            None => None,
        }
    }

    /// Tells whether every member of this set is a member of `other`.
    pub fn is_subset(&self, other: &TypeSet) -> (within: bool)
        ensures
            within == self@.subset_of(other@),
    {
        let within = (!self.null || other.null) && (!self.int || other.int) && (!self.float
            || other.float) && (!self.string || other.string) && (!self.boolean || other.boolean)
            && (!self.datetime || other.datetime) && (!self.date || other.date) && (!self.duration
            || other.duration);
        proof {
            self.lemma_members();
            other.lemma_members();
            if within {
                assert forall|dtype: DType| self@.contains(dtype) implies other@.contains(
                    dtype,
                ) by {
                    assert(self.has(dtype));
                }
            }
        }
        within
    }

    /// The number of members other than `Null`.
    pub open spec fn non_null_len(self) -> nat {
        let count = |flag: bool| -> nat { if flag { 1nat } else { 0nat } };
        count(self.int) + count(self.float) + count(self.string) + count(self.boolean) + count(
            self.datetime,
        ) + count(self.date) + count(self.duration)
    }

    /// The first member other than `Null`, in the order of the flags.
    pub open spec fn first_non_null(self) -> DType {
        if self.int {
            DType::Int
        } else if self.float {
            DType::Float
        } else if self.string {
            DType::String
        } else if self.boolean {
            DType::Bool
        } else if self.datetime {
            DType::DateTime
        } else if self.date {
            DType::Date
        } else {
            DType::Duration
        }
    }

    /// The last member other than `Null`, in the order of the flags.
    pub open spec fn last_non_null(self) -> DType {
        if self.duration {
            DType::Duration
        } else if self.date {
            DType::Date
        } else if self.datetime {
            DType::DateTime
        } else if self.boolean {
            DType::Bool
        } else if self.string {
            DType::String
        } else if self.float {
            DType::Float
        } else {
            DType::Int
        }
    }

    /// Whether a date-time, a date or a duration is a member.
    pub open spec fn has_temporal(self) -> bool {
        self.datetime || self.date || self.duration
    }

    /// What the set resolves to, read off its flags.
    pub open spec fn resolved(self) -> Result<DType, SchemaError> {
        if self.non_null_len() == 0 {
            Ok(DType::Null)
        } else if self.non_null_len() == 1 {
            Ok(self.first_non_null())
        } else if !self.float && !self.string && !self.has_temporal() {
            Ok(DType::Int)
        } else if !self.string && !self.has_temporal() {
            Ok(DType::Float)
        } else if !self.boolean && !self.has_temporal() {
            Ok(DType::String)
        } else {
            Err(SchemaError::IncompatibleColumnTypes(TypeSet { null: false, ..self }))
        }
    }

    /// The lattice over sets of types and the reading of the flags agree.
    pub proof fn lemma_resolved(self)
        ensures
            resolve_types(self@) == self.resolved(),
    {
        let types = self@.remove(DType::Null);
        let rest = TypeSet { null: false, ..self };
        self.lemma_members();
        rest.lemma_members();
        assert(types =~= rest@);
        assert(type_set_of(types) == rest);
        let first = self.first_non_null();
        let last = self.last_non_null();
        if self.non_null_len() == 0 {
            assert(no_types(types));
        } else {
            assert(types.contains(first));
            assert(types.contains(last));
            if self.non_null_len() == 1 {
                assert(only_type(types, first));
                lemma_only_is_chosen(types, first);
            } else {
                assert(first != last);
                assert forall|dtype: DType| !only_type(types, dtype) by {
                    if only_type(types, dtype) {
                        assert(first == dtype);
                        assert(last == dtype);
                    }
                }
                assert(types.subset_of(int_compatible()) == (!self.float && !self.string
                    && !self.has_temporal())) by {
                    if types.subset_of(int_compatible()) {
                        assert(!types.contains(DType::Float));
                        assert(!types.contains(DType::String));
                        assert(!types.contains(DType::DateTime));
                        assert(!types.contains(DType::Date));
                        assert(!types.contains(DType::Duration));
                    }
                }
                assert(types.subset_of(float_compatible()) == (!self.string
                    && !self.has_temporal())) by {
                    if types.subset_of(float_compatible()) {
                        assert(!types.contains(DType::String));
                        assert(!types.contains(DType::DateTime));
                        assert(!types.contains(DType::Date));
                        assert(!types.contains(DType::Duration));
                    }
                }
                assert(types.subset_of(string_compatible()) == (!self.boolean
                    && !self.has_temporal())) by {
                    if types.subset_of(string_compatible()) {
                        assert(!types.contains(DType::Bool));
                        assert(!types.contains(DType::DateTime));
                        assert(!types.contains(DType::Date));
                        assert(!types.contains(DType::Duration));
                    }
                }
            }
        }
    }

    /// Membership in the view, flag by flag.
    pub proof fn lemma_members(self)
        ensures
            self@.contains(DType::Null) == self.null,
            self@.contains(DType::Int) == self.int,
            self@.contains(DType::Float) == self.float,
            self@.contains(DType::String) == self.string,
            self@.contains(DType::Bool) == self.boolean,
            self@.contains(DType::DateTime) == self.datetime,
            self@.contains(DType::Date) == self.date,
            self@.contains(DType::Duration) == self.duration,
            forall|dtype: DType| #[trigger] self@.contains(dtype) == self.has(dtype),
    {
    }

    /// Resolves a set of observed cell types to one column type: `Null` is
    /// ignored, a single remaining type is kept, and several are promoted
    /// through the lattice or refused together.
    pub fn resolve(&self) -> (dtype: Result<DType, SchemaError>)
        ensures
            dtype == resolve_types(self@),
            dtype == type_set_of(self@).resolved(),
    {
        proof {
            self.lemma_resolved();
            self.lemma_members();
            assert(type_set_of(self@) == *self);
        }
        let mut types = *self;
        types.remove(DType::Null);
        if types.is_empty() {
            return Ok(DType::Null);
        }
        match types.single() {
            Some(only) => {
                proof {
                    lemma_only_is_chosen(types@, only);
                }
                Ok(only)
            },
            None => {
                if types.is_subset(&int_types()) {
                    Ok(DType::Int)
                } else if types.is_subset(&float_types()) {
                    Ok(DType::Float)
                } else if types.is_subset(&string_types()) {
                    Ok(DType::String)
                } else {
                    Err(SchemaError::IncompatibleColumnTypes(types))
                }
            },
        }
    }
}

impl View for TypeSet {
    type V = Set<DType>;

    open spec fn view(&self) -> Set<DType> {
        Set::new(|dtype: DType| self.has(dtype))
    }
}

/// A set without members.
pub open spec fn no_types(types: Set<DType>) -> bool {
    forall|dtype: DType| !types.contains(dtype)
}

/// `dtype` is the one and only member of `types`.
pub open spec fn only_type(types: Set<DType>, dtype: DType) -> bool {
    types.contains(dtype) && forall|other: DType| types.contains(other) ==> other == dtype
}

/// A set with exactly one member.
pub open spec fn is_singleton(types: Set<DType>) -> bool {
    exists|dtype: DType| only_type(types, dtype)
}

/// The types that a column of integers can absorb.
pub open spec fn int_compatible() -> Set<DType> {
    set![DType::Int, DType::Bool]
}

/// The types that a column of floats can absorb.
pub open spec fn float_compatible() -> Set<DType> {
    set![DType::Int, DType::Float, DType::Bool]
}

/// The types that a column of strings can absorb.
pub open spec fn string_compatible() -> Set<DType> {
    set![DType::Int, DType::Float, DType::String]
}

/// The promotion lattice: the column type that a set of observed cell types
/// resolves to, or `None` where the types cannot share a column.
pub open spec fn promote(observed: Set<DType>) -> Option<DType> {
    let types = observed.remove(DType::Null);
    if no_types(types) {
        Some(DType::Null)
    } else if is_singleton(types) {
        Some(choose|dtype: DType| only_type(types, dtype))
    } else if types.subset_of(int_compatible()) {
        Some(DType::Int)
    } else if types.subset_of(float_compatible()) {
        Some(DType::Float)
    } else if types.subset_of(string_compatible()) {
        Some(DType::String)
    } else {
        None
    }
}

/// The one member of a singleton is the member that `choose` picks.
pub proof fn lemma_only_is_chosen(types: Set<DType>, dtype: DType)
    requires
        only_type(types, dtype),
    ensures
        is_singleton(types),
        (choose|other: DType| only_type(types, other)) == dtype,
{
    let chosen = choose|other: DType| only_type(types, other);
    assert(only_type(types, chosen));
    assert(types.contains(chosen));
}

/// The types that promote to `Float`: `Int`, `Float` and `Bool`.
pub fn float_types() -> (set: TypeSet)
    ensures
        set@ == float_compatible(),
{
    let mut set = TypeSet::new();
    set.insert(DType::Int);
    set.insert(DType::Float);
    set.insert(DType::Bool);
    assert(set@ =~= float_compatible());
    set
}

/// The types that promote to `Int`: `Int` and `Bool`.
pub fn int_types() -> (set: TypeSet)
    ensures
        set@ == int_compatible(),
{
    let mut set = TypeSet::new();
    set.insert(DType::Int);
    set.insert(DType::Bool);
    assert(set@ =~= int_compatible());
    set
}

/// The types that promote to `String`: `Int`, `Float` and `String`.
pub fn string_types() -> (set: TypeSet)
    ensures
        set@ == string_compatible(),
{
    let mut set = TypeSet::new();
    set.insert(DType::Int);
    set.insert(DType::Float);
    set.insert(DType::String);
    assert(set@ =~= string_compatible());
    set
}

/// The set with exactly the flags of the members of `types`.
pub open spec fn type_set_of(types: Set<DType>) -> TypeSet {
    TypeSet {
        null: types.contains(DType::Null),
        int: types.contains(DType::Int),
        float: types.contains(DType::Float),
        string: types.contains(DType::String),
        boolean: types.contains(DType::Bool),
        datetime: types.contains(DType::DateTime),
        date: types.contains(DType::Date),
        duration: types.contains(DType::Duration),
    }
}

/// The lattice can be read off the membership of the seven non-null types.
pub proof fn lemma_resolve_by_members(observed: Set<DType>)
    ensures
        resolve_types(observed) == type_set_of(observed).resolved(),
{
    let flags = type_set_of(observed);
    flags.lemma_members();
    assert(flags@ =~= observed);
    flags.lemma_resolved();
}

/// The column type that a set of observed cell types resolves to, or the
/// error that names the non-null types that cannot share a column.
pub open spec fn resolve_types(observed: Set<DType>) -> Result<DType, SchemaError> {
    match promote(observed) {
        Some(dtype) => Ok(dtype),
        None => Err(SchemaError::IncompatibleColumnTypes(type_set_of(observed.remove(DType::Null)))),
    }
}

/// Every row of `[start_row, end_row)` has a cell in column `col` that
/// classifies.
pub open spec fn rows_classify(
    range: calamine::Range<calamine::Data>,
    start_row: usize,
    end_row: usize,
    col: usize,
) -> bool {
    forall|row: usize| start_row <= row < end_row ==> (#[trigger] classify_at(range, row, col)) is Ok
}

/// The types of the cells of column `col` in the rows `[start_row, end_row)`,
/// as a set: neither the order of the rows nor repetitions count.
pub open spec fn observed_types(
    range: calamine::Range<calamine::Data>,
    start_row: usize,
    end_row: usize,
    col: usize,
) -> Set<DType> {
    Set::new(
        |dtype: DType|
            exists|row: usize|
                start_row <= row < end_row && #[trigger] classify_at(range, row, col) == Ok::<
                    DType,
                    SchemaError,
                >(dtype),
    )
}

/// `row` is the first row of `[start_row, end_row)` whose cell in column
/// `col` does not classify.
pub open spec fn first_failing_row(
    range: calamine::Range<calamine::Data>,
    start_row: usize,
    end_row: usize,
    col: usize,
    row: usize,
) -> bool {
    &&& start_row <= row < end_row
    &&& classify_at(range, row, col) is Err
    &&& rows_classify(range, start_row, row, col)
}

/// The type of column `col` over the rows `[start_row, end_row)`: the error
/// of the first cell that does not classify, and otherwise what the observed
/// types resolve to.
pub open spec fn column_dtype(
    range: calamine::Range<calamine::Data>,
    start_row: usize,
    end_row: usize,
    col: usize,
) -> Result<DType, SchemaError> {
    if rows_classify(range, start_row, end_row, col) {
        resolve_types(observed_types(range, start_row, end_row, col))
    } else {
        classify_at(
            range,
            choose|row: usize| first_failing_row(range, start_row, end_row, col, row),
            col,
        )
    }
}

/// Resolves the type of column `col` from the cells of the rows
/// `[start_row, end_row)`. The first cell that does not classify ends the
/// scan with its error.
pub fn get_dtype_for_column(
    range: &calamine::Range<calamine::Data>,
    start_row: usize,
    end_row: usize,
    col: usize,
) -> (dtype: Result<DType, SchemaError>)
    ensures
        dtype == column_dtype(*range, start_row, end_row, col),
{
    let mut column_types = TypeSet::new();
    let mut row: usize = start_row;
    while row < end_row
        invariant
            start_row <= row,
            row <= end_row || row == start_row,
            rows_classify(*range, start_row, row, col),
            column_types@ =~= observed_types(*range, start_row, row, col),
        decreases end_row - row,
    {
        match get_cell_dtype(range, row, col) {
            Ok(cell_type) => {
                column_types.insert(cell_type);
                proof {
                    let next = (row + 1) as usize;
                    assert forall|dtype: DType|
                        column_types@.contains(dtype) <==> observed_types(
                            *range,
                            start_row,
                            next,
                            col,
                        ).contains(dtype) by {
                        if observed_types(*range, start_row, next, col).contains(dtype) {
                            let r = choose|r: usize|
                                start_row <= r < next && #[trigger] classify_at(*range, r, col)
                                    == Ok::<DType, SchemaError>(dtype);
                            if r < row {
                                assert(observed_types(*range, start_row, row, col).contains(dtype));
                            }
                        }
                        if observed_types(*range, start_row, row, col).contains(dtype) {
                            let r = choose|r: usize|
                                start_row <= r < row && #[trigger] classify_at(*range, r, col)
                                    == Ok::<DType, SchemaError>(dtype);
                            assert(start_row <= r < next);
                        }
                        if dtype == cell_type {
                            assert(classify_at(*range, row, col) == Ok::<DType, SchemaError>(dtype));
                        }
                    }
                }
            },
            Err(error) => {
                proof {
                    assert(first_failing_row(*range, start_row, end_row, col, row));
                    let chosen = choose|r: usize|
                        first_failing_row(*range, start_row, end_row, col, r);
                    assert(first_failing_row(*range, start_row, end_row, col, chosen));
                    assert(chosen == row);
                }
                return Err(error);
            },
        }
        row += 1;
    }
    proof {
        assert(observed_types(*range, start_row, row, col) =~= observed_types(
            *range,
            start_row,
            end_row,
            col,
        ));
        assert(rows_classify(*range, start_row, end_row, col));
    }
    column_types.resolve()
}

/// The order of the rows does not matter: where the rows of one column are
/// those of another in a different order and every cell classifies, both
/// columns resolve to the same type.
pub proof fn lemma_row_order_is_irrelevant(
    first: calamine::Range<calamine::Data>,
    first_col: usize,
    second: calamine::Range<calamine::Data>,
    second_col: usize,
    start_row: usize,
    end_row: usize,
    to_first: spec_fn(usize) -> usize,
    to_second: spec_fn(usize) -> usize,
)
    requires
        rows_classify(first, start_row, end_row, first_col),
        forall|row: usize|
            start_row <= row < end_row ==> start_row <= #[trigger] to_first(row) < end_row
                && to_second(to_first(row)) == row,
        forall|row: usize|
            start_row <= row < end_row ==> start_row <= #[trigger] to_second(row) < end_row
                && to_first(to_second(row)) == row,
        forall|row: usize|
            start_row <= row < end_row ==> #[trigger] classify_at(second, row, second_col)
                == classify_at(first, to_first(row), first_col),
    ensures
        column_dtype(first, start_row, end_row, first_col) == column_dtype(
            second,
            start_row,
            end_row,
            second_col,
        ),
{
    assert(rows_classify(second, start_row, end_row, second_col)) by {
        assert forall|row: usize| start_row <= row < end_row implies (#[trigger] classify_at(
            second,
            row,
            second_col,
        )) is Ok by {
            assert(classify_at(first, to_first(row), first_col) is Ok);
        }
    }
    let a = observed_types(first, start_row, end_row, first_col);
    let b = observed_types(second, start_row, end_row, second_col);
    assert forall|dtype: DType| a.contains(dtype) <==> b.contains(dtype) by {
        if a.contains(dtype) {
            let r = choose|r: usize|
                start_row <= r < end_row && #[trigger] classify_at(first, r, first_col) == Ok::<
                    DType,
                    SchemaError,
                >(dtype);
            let s = to_second(r);
            assert(to_first(s) == r);
            assert(classify_at(second, s, second_col) == Ok::<DType, SchemaError>(dtype));
        }
        if b.contains(dtype) {
            let r = choose|r: usize|
                start_row <= r < end_row && #[trigger] classify_at(second, r, second_col) == Ok::<
                    DType,
                    SchemaError,
                >(dtype);
            assert(classify_at(first, to_first(r), first_col) == Ok::<DType, SchemaError>(dtype));
        }
    }
    assert(a =~= b);
}

/// A position outside the source never resolves to a type: a scan that
/// reaches it fails, and where no earlier cell failed, it fails with
/// `CellOutOfRange` for that position.
pub proof fn lemma_out_of_range_fails(
    range: calamine::Range<calamine::Data>,
    start_row: usize,
    end_row: usize,
    col: usize,
    row: usize,
)
    requires
        start_row <= row < end_row,
        !range_cells(range).contains_key((row as int, col as int)),
    ensures
        column_dtype(range, start_row, end_row, col) is Err,
        rows_classify(range, start_row, row, col) ==> column_dtype(range, start_row, end_row, col)
            == Err::<DType, SchemaError>(SchemaError::CellOutOfRange(row, col)),
{
    assert(classify_at(range, row, col) is Err);
    assert(!rows_classify(range, start_row, end_row, col));
    lemma_first_failure_exists(range, start_row, end_row, col, row);
    let chosen = choose|r: usize| first_failing_row(range, start_row, end_row, col, r);
    assert(first_failing_row(range, start_row, end_row, col, chosen));
    if rows_classify(range, start_row, row, col) {
        assert(first_failing_row(range, start_row, end_row, col, row));
        assert(chosen == row);
    }
}

/// Where some row up to `bad` does not classify, there is a first such row.
pub proof fn lemma_first_failure_exists(
    range: calamine::Range<calamine::Data>,
    start_row: usize,
    end_row: usize,
    col: usize,
    bad: usize,
)
    requires
        start_row <= bad < end_row,
        classify_at(range, bad, col) is Err,
    ensures
        exists|row: usize| first_failing_row(range, start_row, end_row, col, row),
    decreases bad - start_row,
{
    if rows_classify(range, start_row, bad, col) {
        assert(first_failing_row(range, start_row, end_row, col, bad));
    } else {
        let earlier = choose|r: usize|
            start_row <= r < bad && !((#[trigger] classify_at(range, r, col)) is Ok);
        lemma_first_failure_exists(range, start_row, end_row, col, earlier);
    }
}

} // verus!
