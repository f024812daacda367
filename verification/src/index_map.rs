//! Maps from strings to lists of positions, held in `ahash::AHashMap`: the lookup
//! table from an input key to the fields that take their value from it.
use vstd::prelude::*;
use ahash::AHashMap;
use ahash::HashMapExt;

verus! {

#[verifier::external_type_specification]
#[verifier::external_body]
#[verifier::reject_recursive_types(K)]
#[verifier::reject_recursive_types(V)]
#[verifier::reject_recursive_types(S)]
pub struct ExAHashMap<K, V, S>(AHashMap<K, V, S>);

/// A map from strings to lists of positions.
pub type IndexMap = AHashMap<String, Vec<usize>>;

/// The entries of an `IndexMap`, as plain values.
pub uninterp spec fn index_map_contents(m: IndexMap) -> Map<Seq<char>, Seq<usize>>;

/// A map with no entries.
pub open spec fn no_entries() -> Map<Seq<char>, Seq<usize>> {
    Map::empty()
}

/// `AHashMap::new`: a map with no entries.
#[verifier::external_body]
pub(crate) fn index_map_new() -> (r: IndexMap)
    ensures
        index_map_contents(r) == no_entries(),
{
    AHashMap::new()
}

/// `AHashMap::get`: the value under `key` (a copy of it), where there is one.
#[verifier::external_body]
pub(crate) fn index_map_get(m: &IndexMap, key: &str) -> (r: Option<Vec<usize>>)
    ensures
        (r is Some) == index_map_contents(*m).dom().contains(key@),
        r is None || r->Some_0@ == index_map_contents(*m)[key@],
{
    m.get(key).cloned()
}

/// `AHashMap::insert`: the map holds `value` under `key` afterwards, and is unchanged
/// under every other key.
#[verifier::external_body]
pub(crate) fn index_map_insert(m: &mut IndexMap, key: String, value: Vec<usize>)
    ensures
        index_map_contents(*final(m)) == index_map_contents(*old(m)).insert(key@, value@),
{
    m.insert(key, value);
}

/// A map from integers to positions.
pub type IntPositions = ahash::HashMap<i64, usize>;

/// A map from strings to positions.
pub type StrPositions = ahash::HashMap<String, usize>;

/// The entries of an `IntPositions`, as plain values.
pub uninterp spec fn int_positions_contents(m: IntPositions) -> Map<int, usize>;

/// The entries of a `StrPositions`, as plain values.
pub uninterp spec fn str_positions_contents(m: StrPositions) -> Map<Seq<char>, usize>;

pub open spec fn no_int_entries() -> Map<int, usize> {
    Map::empty()
}

pub open spec fn no_str_entries() -> Map<Seq<char>, usize> {
    Map::empty()
}

/// `HashMap::new` (through ahash's `HashMapExt`): a map with no entries.
#[verifier::external_body]
pub(crate) fn int_positions_new() -> (r: IntPositions)
    ensures
        int_positions_contents(r) == no_int_entries(),
{
    IntPositions::new()
}

/// `HashMap::insert`: the map holds `value` under `key` afterwards, and is unchanged
/// under every other key.
#[verifier::external_body]
pub(crate) fn int_positions_insert(m: &mut IntPositions, key: i64, value: usize)
    ensures
        int_positions_contents(*final(m)) == int_positions_contents(*old(m)).insert(key as int, value),
{
    m.insert(key, value);
}

/// `HashMap::get`: the value under `key`, where there is one.
#[verifier::external_body]
pub(crate) fn int_positions_get(m: &IntPositions, key: i64) -> (r: Option<usize>)
    ensures
        (r is Some) == int_positions_contents(*m).dom().contains(key as int),
        r is None || r->Some_0 == int_positions_contents(*m)[key as int],
{
    m.get(&key).copied()
}

/// `HashMap::new` (through ahash's `HashMapExt`): a map with no entries.
#[verifier::external_body]
pub(crate) fn str_positions_new() -> (r: StrPositions)
    ensures
        str_positions_contents(r) == no_str_entries(),
{
    StrPositions::new()
}

/// `HashMap::insert`: the map holds `value` under `key` afterwards, and is unchanged
/// under every other key.
#[verifier::external_body]
pub(crate) fn str_positions_insert(m: &mut StrPositions, key: String, value: usize)
    ensures
        str_positions_contents(*final(m)) == str_positions_contents(*old(m)).insert(key@, value),
{
    m.insert(key, value);
}

/// `HashMap::get`: the value under `key`, where there is one.
#[verifier::external_body]
pub(crate) fn str_positions_get(m: &StrPositions, key: &str) -> (r: Option<usize>)
    ensures
        (r is Some) == str_positions_contents(*m).dom().contains(key@),
        r is None || r->Some_0 == str_positions_contents(*m)[key@],
{
    m.get(key).copied()
}

} // verus!
