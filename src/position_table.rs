//! The table from cell identifiers to screen positions, held in an
//! `indexmap::IndexMap` that keeps its entries in the order of insertion.
use indexmap::IndexMap;
use vstd::prelude::*;

verus! {

#[verifier::external_type_specification]
#[verifier::external_body]
#[verifier::reject_recursive_types(K)]
#[verifier::reject_recursive_types(V)]
#[verifier::reject_recursive_types(S)]
pub struct ExIndexMap<K, V, S>(IndexMap<K, V, S>);

/// The top-left corner `(x, y)` of a cell on screen.
pub type Position = (usize, usize);

/// A table from cell identifiers to the top-left corner `(x, y)` of the cell.
pub type PositionTable = IndexMap<usize, (usize, usize)>;

/// The entries of a table, as `(key, value)` pairs in the table's order.
pub uninterp spec fn table_entries(m: IndexMap<usize, (usize, usize)>) -> Seq<(usize, (usize, usize))>;

/// Relies on `IndexMap::new`: the new map holds no entry.
#[verifier::external_body]
pub(crate) fn table_new() -> (r: PositionTable)
    ensures
        table_entries(r) == Seq::<(usize, (usize, usize))>::empty(),
{
    IndexMap::new()
}

/// Relies on `IndexMap::insert`: a new key goes last in the order and `None`
/// comes back; a key already present keeps its place, takes the new value,
/// and its old value comes back.
#[verifier::external_body]
pub(crate) fn table_insert(m: &mut PositionTable, key: usize, value: Position) -> (r: Option<Position>)
    ensures
        (forall|i: int| 0 <= i < table_entries(*old(m)).len() ==> #[trigger] table_entries(*old(m))[i].0 != key)
            ==> table_entries(*final(m)) == table_entries(*old(m)).push((key, value)) && r.is_none(),
        forall|i: int| 0 <= i < table_entries(*old(m)).len() && #[trigger] table_entries(*old(m))[i].0 == key
            ==> table_entries(*final(m)) == table_entries(*old(m)).update(i, (key, value))
            && r == Some(table_entries(*old(m))[i].1),
{
    m.insert(key, value)
}

/// Relies on `IndexMap::get`: the value stored under `key`, or `None` when
/// no entry has that key.
#[verifier::external_body]
pub(crate) fn table_get(m: &PositionTable, key: usize) -> (r: Option<Position>)
    ensures
        r is Some ==> exists|i: int| 0 <= i < table_entries(*m).len() && #[trigger] table_entries(*m)[i].0 == key,
        r.is_none() ==> forall|i: int| 0 <= i < table_entries(*m).len() ==> #[trigger] table_entries(*m)[i].0 != key,
        forall|i: int| 0 <= i < table_entries(*m).len() && #[trigger] table_entries(*m)[i].0 == key
            ==> r == Some(table_entries(*m)[i].1),
{
    m.get(&key).copied()
}

} // verus!
