use vstd::prelude::*;

use dashmap::DashMap;

verus! {

#[verifier::external_type_specification]
#[verifier::external_body]
#[verifier::reject_recursive_types(K)]
#[verifier::reject_recursive_types(V)]
#[verifier::reject_recursive_types(S)]
pub struct ExDashMap<K, V, S>(DashMap<K, V, S>);

/// What a map of per-key logs holds: each key's log of (offset, value) pairs.
pub uninterp spec fn log_view(m: DashMap<String, Vec<(usize, usize)>>) -> Map<
    Seq<char>,
    Seq<(usize, usize)>,
>;

/// What a map of committed offsets holds.
pub uninterp spec fn offsets_view(m: DashMap<String, usize>) -> Map<Seq<char>, usize>;

/// What a key-value map of integers holds.
pub uninterp spec fn cells_view(m: DashMap<usize, usize>) -> Map<usize, usize>;

/// Relies on `DashMap::new`: a map with no entries.
#[verifier::external_body]
pub(crate) fn new_logs() -> (r: DashMap<String, Vec<(usize, usize)>>)
    ensures
        log_view(r) =~= Map::empty(),
{
    DashMap::new()
}

/// Relies on `DashMap::get`: the entry under `key`, here copied out of the
/// guard that the call returns.
#[verifier::external_body]
pub(crate) fn logs_get(m: &DashMap<String, Vec<(usize, usize)>>, key: &String) -> (r: Option<
    Vec<(usize, usize)>,
>)
    ensures
        r is Some <==> log_view(*m).contains_key(key@),
        r matches Some(v) ==> v@ == log_view(*m)[key@],
{
    m.get(key).map(|e| e.value().clone())
}

/// Relies on `DashMap::insert`: the entry under `key` becomes `v`, the others
/// stay.
#[verifier::external_body]
pub(crate) fn logs_insert(m: &mut DashMap<String, Vec<(usize, usize)>>, key: String, v: Vec<(usize, usize)>)
    ensures
        log_view(*final(m)) == log_view(*old(m)).insert(key@, v@),
{
    m.insert(key, v);
}

/// Relies on `DashMap::new`: a map with no entries.
#[verifier::external_body]
pub(crate) fn new_offsets() -> (r: DashMap<String, usize>)
    ensures
        offsets_view(r) =~= Map::empty(),
{
    DashMap::new()
}

/// Relies on `DashMap::insert`: the entry under `key` becomes `v`, the others
/// stay.
#[verifier::external_body]
pub(crate) fn offsets_insert(m: &mut DashMap<String, usize>, key: String, v: usize)
    ensures
        offsets_view(*final(m)) == offsets_view(*old(m)).insert(key@, v),
{
    m.insert(key, v);
}

/// Relies on `DashMap::new`: a map with no entries.
#[verifier::external_body]
pub(crate) fn new_cells() -> (r: DashMap<usize, usize>)
    ensures
        cells_view(r) =~= Map::empty(),
{
    DashMap::new()
}

/// Relies on `DashMap::get`: the entry under `key`, copied out of the guard.
#[verifier::external_body]
pub(crate) fn cells_get(m: &DashMap<usize, usize>, key: usize) -> (r: Option<usize>)
    ensures
        r is Some <==> cells_view(*m).contains_key(key),
        r matches Some(v) ==> v == cells_view(*m)[key],
{
    m.get(&key).map(|e| *e.value())
}

/// Relies on `DashMap::insert`: the entry under `key` becomes `v`, the others
/// stay.
#[verifier::external_body]
pub(crate) fn cells_insert(m: &mut DashMap<usize, usize>, key: usize, v: usize)
    ensures
        cells_view(*final(m)) == cells_view(*old(m)).insert(key, v),
{
    m.insert(key, v);
}

} // verus!
