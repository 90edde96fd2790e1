//! The hash table that the layers keep their addresses, ports and
//! connections in.

use vstd::prelude::*;

verus! {

/// A table from keys to values, held in a `hashbrown::HashMap`.
///
/// The map's own type cannot be declared to the verifier: its allocator
/// parameter is bound by a trait that its crate keeps to itself. So the map
/// stands behind this struct, and `table_entries` names what it holds.
#[verifier::external_body]
pub struct KeyTable {
    inner: hashbrown::HashMap<u128, u64>,
}

/// What a table holds.
pub uninterp spec fn table_entries(t: KeyTable) -> Map<u128, u64>;

/// The contents of a table without entries.
pub open spec fn no_entries() -> Map<u128, u64> {
    Map::empty()
}

/// An empty table, by `hashbrown::HashMap::new`, which makes a map without
/// entries.
#[verifier::external_body]
pub(crate) fn table_new() -> (table: KeyTable)
    ensures
        table_entries(table) == no_entries(),
{
    KeyTable { inner: hashbrown::HashMap::new() }
}

/// Puts `value` under `key`, by `hashbrown::HashMap::insert`: the entry is
/// added or its value replaced, every other entry stays, and the value that
/// stood under the key before is returned.
#[verifier::external_body]
pub(crate) fn table_insert(t: &mut KeyTable, key: u128, value: u64) -> (before: Option<u64>)
    ensures
        table_entries(*final(t)) == table_entries(*old(t)).insert(key, value),
        before == if table_entries(*old(t)).dom().contains(key) {
            Some(table_entries(*old(t))[key])
        } else {
            None
        },
{
    t.inner.insert(key, value)
}

/// The value under `key`, by `hashbrown::HashMap::get`: the value of the entry
/// where there is one, nothing otherwise.
#[verifier::external_body]
pub(crate) fn table_get(t: &KeyTable, key: u128) -> (r: Option<u64>)
    ensures
        r == if table_entries(*t).dom().contains(key) {
            Some(table_entries(*t)[key])
        } else {
            None
        },
{
    t.inner.get(&key).copied()
}

/// The entries of the table, by `hashbrown::HashMap::iter`, which visits every
/// entry once, in an order that nothing is said of.
#[verifier::external_body]
pub(crate) fn table_pairs(t: &KeyTable) -> (r: Vec<(u128, u64)>)
    ensures
        forall|i: int|
            0 <= i < r@.len() ==> table_entries(*t).contains_pair(
                (#[trigger] r@[i]).0,
                r@[i].1,
            ),
        forall|k: u128|
            table_entries(*t).dom().contains(k) ==> exists|i: int|
                0 <= i < r@.len() && (#[trigger] r@[i]).0 == k,
        forall|i: int, j: int|
            0 <= i < j < r@.len() ==> (#[trigger] r@[i]).0 != (#[trigger] r@[j]).0,
{
    t.inner.iter().map(|(k, v)| (*k, *v)).collect()
}

/// The key of some entry whose value is `value`, if there is one.
pub fn find_key(t: &KeyTable, value: u64) -> (r: Option<u128>)
    ensures
        match r {
            Some(k) => table_entries(*t).contains_pair(k, value),
            None => forall|k: u128|
                table_entries(*t).dom().contains(k) ==> table_entries(*t)[k] != value,
        },
{
    let pairs = table_pairs(t);
    let mut i: usize = 0;
    while i < pairs.len()
        invariant
            i <= pairs@.len(),
            forall|j: int|
                0 <= j < pairs@.len() ==> table_entries(*t).contains_pair(
                    (#[trigger] pairs@[j]).0,
                    pairs@[j].1,
                ),
            forall|j: int| 0 <= j < i ==> (#[trigger] pairs@[j]).1 != value,
        decreases pairs.len() - i,
    {
        if pairs[i].1 == value {
            assert(table_entries(*t).contains_pair(pairs@[i as int].0, pairs@[i as int].1));
            return Some(pairs[i].0);
        }
        i = i + 1;
    }
    assert forall|k: u128| table_entries(*t).dom().contains(k) implies table_entries(*t)[k]
        != value by {
        let j = choose|j: int| 0 <= j < pairs@.len() && (#[trigger] pairs@[j]).0 == k;
        assert(table_entries(*t).contains_pair(pairs@[j].0, pairs@[j].1));
    }
    None
}

} // verus!
