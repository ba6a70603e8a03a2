//! Type overrides: the types a caller fixes for some columns, keyed by
//! column name or by column position.

use vstd::prelude::*;
use crate::types::{dtype_of_name, str_eq, DType, IdxOrName, SchemaError};

verus! {

/// What an override key stands for.
pub enum ColumnKey {
    Idx(usize),
    Name(Seq<char>),
}

impl View for IdxOrName {
    type V = ColumnKey;

    open spec fn view(&self) -> ColumnKey {
        match self {
            IdxOrName::Idx(idx) => ColumnKey::Idx(*idx),
            IdxOrName::Name(name) => ColumnKey::Name(name@),
        }
    }
}

/// The overrides that a list of entries amounts to: a later entry replaces
/// an earlier one with the same key.
pub open spec fn overrides_of(entries: Seq<(IdxOrName, DType)>) -> Map<ColumnKey, DType>
    decreases entries.len(),
{
    if entries.len() == 0 {
        Map::empty()
    } else {
        overrides_of(entries.drop_last()).insert(entries.last().0@, entries.last().1)
    }
}

/// The overrides that a list of keys and type names amounts to, every name
/// read by [`dtype_of_name`]. Only meaningful where every name is valid.
pub open spec fn overrides_of_names(raw: Seq<(IdxOrName, String)>) -> Map<ColumnKey, DType>
    decreases raw.len(),
{
    if raw.len() == 0 {
        Map::empty()
    } else {
        overrides_of_names(raw.drop_last()).insert(
            raw.last().0@,
            dtype_of_name(raw.last().1@)->Some_0,
        )
    }
}

/// The last entry under a key decides its type.
pub proof fn lemma_last_entry_wins(entries: Seq<(IdxOrName, DType)>, key: ColumnKey, at: int)
    requires
        0 <= at < entries.len(),
        entries[at].0@ == key,
        forall|k: int| at < k < entries.len() ==> entries[k].0@ != key,
    ensures
        overrides_of(entries).contains_key(key),
        overrides_of(entries)[key] == entries[at].1,
    decreases entries.len(),
{
    if at < entries.len() - 1 {
        lemma_last_entry_wins(entries.drop_last(), key, at);
    }
}

/// A key under which no entry stands has no override.
pub proof fn lemma_no_entry_no_override(entries: Seq<(IdxOrName, DType)>, key: ColumnKey)
    requires
        forall|k: int| 0 <= k < entries.len() ==> entries[k].0@ != key,
    ensures
        !overrides_of(entries).contains_key(key),
    decreases entries.len(),
{
    if entries.len() > 0 {
        lemma_no_entry_no_override(entries.drop_last(), key);
    }
}

/// Type overrides by column name and by column position. Both kinds of key
/// may stand side by side; a lookup asks for one kind.
#[derive(Debug, Clone)]
pub struct DTypeMap {
    entries: Vec<(IdxOrName, DType)>,
}

impl View for DTypeMap {
    type V = Map<ColumnKey, DType>;

    closed spec fn view(&self) -> Map<ColumnKey, DType> {
        overrides_of(self.entries@)
    }
}

impl DTypeMap {
    /// No overrides.
    pub fn new() -> (map: DTypeMap)
        ensures
            map@ == Map::<ColumnKey, DType>::empty(),
    {
        DTypeMap { entries: Vec::new() }
    }

    /// Sets the override of `key`, in place of an earlier one.
    pub fn insert(&mut self, key: IdxOrName, dtype: DType)
        ensures
            final(self)@ == old(self)@.insert(key@, dtype),
    {
        self.entries.push((key, dtype));
        proof {
            assert(self.entries@.drop_last() =~= old(self).entries@);
        }
    }

    /// Builds the overrides from keys and type names. The first name outside
    /// the vocabulary refuses the whole list.
    pub fn from_names(raw: Vec<(IdxOrName, String)>) -> (built: Result<DTypeMap, SchemaError>)
        ensures
            (forall|i: int| 0 <= i < raw.len() ==> dtype_of_name(#[trigger] raw[i].1@) is Some)
                ==> (built matches Ok(map) && map@ == overrides_of_names(raw@)),
            forall|i: int|
                0 <= i < raw.len() && dtype_of_name(#[trigger] raw[i].1@) is None && (forall|
                    k: int,
                | 0 <= k < i ==> dtype_of_name(#[trigger] raw[k].1@) is Some) ==> (built matches Err(
                    SchemaError::InvalidTypeName(text),
                ) && text@ == raw[i].1@),
    {
        let mut map = DTypeMap::new();
        let ghost all = raw@;
        let mut at: usize = 0;
        while at < raw.len()
            invariant
                raw@ == all,
                at <= raw.len(),
                forall|k: int| 0 <= k < at ==> dtype_of_name(#[trigger] all[k].1@) is Some,
                map@ == overrides_of_names(all.take(at as int)),
            decreases raw.len() - at,
        {
            let parsed = DType::from_str(raw[at].1.as_str());
            match parsed {
                Ok(dtype) => {
                    let key = clone_key(&raw[at].0);
                    map.insert(key, dtype);
                    proof {
                        assert(all.take(at + 1).drop_last() =~= all.take(at as int));
                    }
                },
                Err(error) => {
                    proof {
                        assert(dtype_of_name(raw[at as int].1@) is None);
                        assert forall|i: int|
                            0 <= i < all.len() && dtype_of_name(#[trigger] all[i].1@) is None
                                && (forall|k: int|
                                0 <= k < i ==> dtype_of_name(#[trigger] all[k].1@) is Some)
                                implies i == at by {
                            if i > at {
                                assert(dtype_of_name(all[at as int].1@) is Some);
                            }
                            if i < at {
                                assert(dtype_of_name(all[i].1@) is Some);
                            }
                        }
                    }
                    return Err(error);
                },
            }
            at += 1;
        }
        proof {
            assert(all.take(at as int) =~= all);
        }
        Ok(map)
    }

    /// The override of the column named `col_name`, if there is one.
    pub fn dtype_for_col_name(&self, col_name: &str) -> (dtype: Option<DType>)
        ensures
            dtype == self@.get(ColumnKey::Name(col_name@)),
    {
        let ghost key = ColumnKey::Name(col_name@);
        let mut at: usize = self.entries.len();
        while at > 0
            invariant
                at <= self.entries.len(),
                key == ColumnKey::Name(col_name@),
                forall|k: int| at <= k < self.entries.len() ==> self.entries[k].0@ != key,
            decreases at,
        {
            at -= 1;
            let found = match &self.entries[at].0 {
                IdxOrName::Name(name) => str_eq(name.as_str(), col_name),
                IdxOrName::Idx(_) => false,
            };
            if found {
                proof {
                    lemma_last_entry_wins(self.entries@, key, at as int);
                }
                return Some(self.entries[at].1);
            }
        }
        proof {
            lemma_no_entry_no_override(self.entries@, key);
        }
        None
    }

    /// The override of the column at position `col_idx`, if there is one.
    pub fn dtype_for_col_idx(&self, col_idx: usize) -> (dtype: Option<DType>)
        ensures
            dtype == self@.get(ColumnKey::Idx(col_idx)),
    {
        let ghost key = ColumnKey::Idx(col_idx);
        let mut at: usize = self.entries.len();
        while at > 0
            invariant
                at <= self.entries.len(),
                key == ColumnKey::Idx(col_idx),
                forall|k: int| at <= k < self.entries.len() ==> self.entries[k].0@ != key,
            decreases at,
        {
            at -= 1;
            let found = match &self.entries[at].0 {
                IdxOrName::Name(_) => false,
                IdxOrName::Idx(idx) => *idx == col_idx,
            };
            if found {
                proof {
                    lemma_last_entry_wins(self.entries@, key, at as int);
                }
                return Some(self.entries[at].1);
            }
        }
        proof {
            lemma_no_entry_no_override(self.entries@, key);
        }
        None
    }
}

/// A copy of an override key.
pub fn clone_key(key: &IdxOrName) -> (copy: IdxOrName)
    ensures
        copy@ == key@,
{
    match key {
        IdxOrName::Idx(idx) => IdxOrName::Idx(*idx),
        IdxOrName::Name(name) => IdxOrName::Name(name.clone()),
    }
}

} // verus!
