//! The concurrent collections that hold the tangle, as Verus sees them.
//!
//! `dashmap`'s `DashMap` and `DashSet` are opaque here: what each one holds is
//! named by a spec function, and every method the engine calls has a small
//! wrapper whose contract speaks over that name.
use crate::models::{MilestoneIndex, Parents, Message, Metadata, Vertex};
use dashmap::{DashMap, DashSet};
use rand::Rng;
use vstd::prelude::*;

verus! {

#[verifier::external_type_specification]
#[verifier::external_body]
#[verifier::reject_recursive_types(K)]
#[verifier::reject_recursive_types(S)]
pub struct ExDashSet<K, S>(DashSet<K, S>);

#[verifier::external_type_specification]
#[verifier::external_body]
#[verifier::reject_recursive_types(K)]
#[verifier::reject_recursive_types(V)]
#[verifier::reject_recursive_types(S)]
pub struct ExDashMap<K, V, S>(DashMap<K, V, S>);

/// The ids that a `DashSet<u64>` holds.
pub uninterp spec fn id_set(s: DashSet<u64>) -> Set<u64>;

/// The vertices that a vertex table holds, by id.
pub uninterp spec fn vertex_entries(m: DashMap<u64, Vertex>) -> Map<u64, Vertex>;

/// The sets of waiting children that a missing-parents table holds, by parent id.
pub uninterp spec fn waiting_entries(m: DashMap<u64, DashSet<u64>>) -> Map<u64, DashSet<u64>>;

/// The milestone indices that a solid-entry-point table holds, by id.
pub uninterp spec fn index_entries(m: DashMap<u64, MilestoneIndex>) -> Map<u64, MilestoneIndex>;

// ---- DashSet<u64>

/// Relies on `DashSet::new`: a new set is empty.
#[verifier::external_body]
pub(crate) fn ids_new() -> (r: DashSet<u64>)
    ensures
        id_set(r) == Set::<u64>::empty(),
{
    DashSet::new()
}

/// Relies on `DashSet::insert`: afterwards the set also holds `x`.
#[verifier::external_body]
pub(crate) fn ids_insert(s: &mut DashSet<u64>, x: u64)
    ensures
        id_set(*final(s)) == id_set(*old(s)).insert(x),
{
    s.insert(x);
}

/// Relies on `DashSet::remove`: afterwards the set no longer holds `x`.
#[verifier::external_body]
pub(crate) fn ids_remove(s: &mut DashSet<u64>, x: u64)
    ensures
        id_set(*final(s)) == id_set(*old(s)).remove(x),
{
    s.remove(&x);
}

/// Relies on `DashSet::len`: the number of ids held.
#[verifier::external_body]
pub(crate) fn ids_len(s: &DashSet<u64>) -> (r: usize)
    ensures
        r == id_set(*s).len(),
{
    s.len()
}

/// Relies on `DashSet::iter`: each id held, once, in the set's own order.
#[verifier::external_body]
pub(crate) fn ids_to_vec(s: &DashSet<u64>) -> (r: Vec<u64>)
    ensures
        r@.to_set() == id_set(*s),
        r@.no_duplicates(),
{
    s.iter().map(|x| *x).collect()
}

// ---- DashMap<u64, Vertex>

/// Relies on `DashMap::new`: a new table is empty.
#[verifier::external_body]
pub(crate) fn vertices_new() -> (r: DashMap<u64, Vertex>)
    ensures
        vertex_entries(r).dom() == Set::<u64>::empty(),
{
    DashMap::new()
}

/// Relies on `DashMap::insert`: afterwards `k` maps to `v`.
#[verifier::external_body]
pub(crate) fn vertices_insert(m: &mut DashMap<u64, Vertex>, k: u64, v: Vertex)
    ensures
        vertex_entries(*final(m)) == vertex_entries(*old(m)).insert(k, v),
{
    m.insert(k, v);
}

/// Relies on `DashMap::remove`: takes the vertex stored under `k` out of the table.
#[verifier::external_body]
pub(crate) fn vertices_remove(m: &mut DashMap<u64, Vertex>, k: u64) -> (r: Option<Vertex>)
    ensures
        vertex_entries(*final(m)) == vertex_entries(*old(m)).remove(k),
        r == vertex_entries(*old(m)).get(k),
{
    m.remove(&k).map(|(_, v)| v)
}

/// Relies on `DashMap::get`: the parents, message and metadata stored under `k`.
#[verifier::external_body]
pub(crate) fn vertices_get(m: &DashMap<u64, Vertex>, k: u64) -> (r: Option<(Parents, Message, Metadata)>)
    ensures
        r == (match vertex_entries(*m).get(k) {
            Some(v) => Some((v.parents, v.message, v.metadata)),
            None => None,
        }),
{
    m.get(&k).map(|v| (v.parents, v.message, v.metadata))
}

// ---- DashMap<u64, DashSet<u64>>

/// Relies on `DashMap::new`: a new table is empty.
#[verifier::external_body]
pub(crate) fn waiting_new() -> (r: DashMap<u64, DashSet<u64>>)
    ensures
        waiting_entries(r).dom() == Set::<u64>::empty(),
{
    DashMap::new()
}

/// Relies on `DashMap::insert`: afterwards `k` maps to `v`.
#[verifier::external_body]
pub(crate) fn waiting_insert(m: &mut DashMap<u64, DashSet<u64>>, k: u64, v: DashSet<u64>)
    ensures
        waiting_entries(*final(m)) == waiting_entries(*old(m)).insert(k, v),
{
    m.insert(k, v);
}

/// Relies on `DashMap::remove`: takes the set stored under `k` out of the table.
#[verifier::external_body]
pub(crate) fn waiting_remove(m: &mut DashMap<u64, DashSet<u64>>, k: u64) -> (r: Option<DashSet<u64>>)
    ensures
        waiting_entries(*final(m)) == waiting_entries(*old(m)).remove(k),
        r == waiting_entries(*old(m)).get(k),
{
    m.remove(&k).map(|(_, v)| v)
}

// ---- DashMap<u64, MilestoneIndex>

/// Relies on `DashMap::new`: a new table is empty.
#[verifier::external_body]
pub(crate) fn indices_new() -> (r: DashMap<u64, MilestoneIndex>)
    ensures
        index_entries(r).dom() == Set::<u64>::empty(),
{
    DashMap::new()
}

/// Relies on `DashMap::insert`: afterwards `k` maps to `v`.
#[verifier::external_body]
pub(crate) fn indices_insert(m: &mut DashMap<u64, MilestoneIndex>, k: u64, v: MilestoneIndex)
    ensures
        index_entries(*final(m)) == index_entries(*old(m)).insert(k, v),
{
    m.insert(k, v);
}

/// Relies on `DashMap::get`: the index stored under `k`.
#[verifier::external_body]
pub(crate) fn indices_get(m: &DashMap<u64, MilestoneIndex>, k: u64) -> (r: Option<MilestoneIndex>)
    ensures
        r == index_entries(*m).get(k),
{
    m.get(&k).map(|v| *v)
}

// ---- rand

/// Relies on `rand::thread_rng` and `Rng::gen_range` over an inclusive range:
/// a number from `lo` to `hi`; the range must not be empty.
#[verifier::external_body]
pub(crate) fn draw_between(lo: u128, hi: u128) -> (r: u128)
    requires
        lo <= hi,
    ensures
        lo <= r <= hi,
{
    rand::thread_rng().gen_range(lo..=hi)
}

} // verus!
