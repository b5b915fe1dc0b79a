//! What holds of every engine that the public operations produce.
//!
//! Each operation that changes a `Tangle` keeps `wf`; these lemmas read the
//! invariants that `wf` bundles back out in the terms of the model.
use crate::engine::Tangle;
use crate::models::{IndexId, InternedHash, Message};
use vstd::prelude::*;

verus! {

/// A solid vertex has parents that are solid vertices or solid entry points,
/// and both of its root snapshot indices.
pub proof fn solid_vertex_has_solid_parents(t: &Tangle, v: InternedHash)
    requires
        t.wf(),
        t.stored(v),
        t.vtx()[v].metadata.solid,
    ensures
        t.solid_spec(t.vtx()[v].parents.ma),
        t.solid_spec(t.vtx()[v].parents.pa),
        t.vtx()[v].metadata.otrsi is Some,
        t.vtx()[v].metadata.ytrsi is Some,
{
}

/// A vertex confirmed by milestone `m`, a milestone included, is a root
/// transaction: both of its snapshot keys are `(m, v)`.
pub proof fn confirmed_vertex_is_root(t: &Tangle, v: InternedHash, m: u64)
    requires
        t.wf(),
        t.stored(v),
        t.vtx()[v].metadata.confirmed == Some(m),
    ensures
        t.vtx()[v].metadata.otrsi == Some(IndexId(m, v)),
        t.vtx()[v].metadata.ytrsi == Some(IndexId(m, v)),
{
}

/// For a vertex confirmed by milestone `m`, the past-cone scan finds exactly the index `m`, which is the index of both
/// of its snapshot keys.
pub proof fn confirmed_vertex_scans_to_its_keys(t: &Tangle, v: InternedHash, m: u64)
    requires
        t.wf(),
        t.stored(v),
        t.vtx()[v].metadata.confirmed == Some(m),
    ensures
        t.root_indices(v) == set![m],
        t.otrsi_spec(v) == Some(m),
        t.ytrsi_spec(v) == Some(m),
{
    assert forall|x: InternedHash| #[trigger] t.reaches(v, x) implies x == v by {
        let path = choose|path: Seq<InternedHash>| #[trigger] t.cone_path(v, path) && path.last() == x;
        if path.len() > 1 {
            assert(t.vtx()[path[0int]].parents.lists(path[0int + 1]));
        }
    }
    assert(t.reaches(v, v)) by {
        assert(t.cone_path(v, seq![v]));
        assert(seq![v].last() == v);
    }
    assert(t.root_indices(v) =~= set![m]);
}

/// Confirming again is a no-op: from a parent that a confirmation walk has
/// settled (a confirmed vertex or an entry point), no unconfirmed vertex is
/// reachable, so a second walk from it confirms nothing.
pub proof fn settled_parent_reaches_nothing_unconfirmed(t: &Tangle, p: InternedHash, x: InternedHash)
    requires
        t.wf(),
        t.settled(p),
        t.stored(x),
        t.vtx()[x].metadata.confirmed is None,
    ensures
        !t.reaches(p, x),
{
    if t.reaches(p, x) {
        let path = choose|path: Seq<InternedHash>| #[trigger] t.cone_path(p, path) && path.last() == x;
        if path.len() > 1 {
            assert(t.vtx()[path[0int]].parents.lists(path[0int + 1]));
        } else {
            assert(path[0int] == x);
        }
    }
}

/// No stored vertex lists a tip as a parent.
pub proof fn tip_has_no_child(t: &Tangle, tip: InternedHash, v: InternedHash)
    requires
        t.wf(),
        t.tip_set().contains(tip),
        t.stored(v),
    ensures
        t.stored(tip),
        t.vtx()[v].parents.ma != tip,
        t.vtx()[v].parents.pa != tip,
{
}

/// An id in the missing-parents table is neither stored nor a solid entry
/// point.
pub proof fn missing_parent_is_unknown(t: &Tangle, p: InternedHash)
    requires
        t.wf(),
        t.waiting().contains_key(p),
    ensures
        !t.stored(p),
        !t.is_sep_spec(p),
{
}

/// The latest solid milestone index never exceeds the latest milestone index.
pub proof fn solid_milestone_not_ahead(t: &Tangle)
    requires
        t.wf(),
    ensures
        t.lsmi <= t.lmi,
{
}

/// An insert never lowers the latest milestone index or the latest solid
/// milestone index.
pub proof fn insert_keeps_counters_monotone(
    o: &Tangle,
    t: &Tangle,
    id: InternedHash,
    message: Message,
    ma: InternedHash,
    pa: InternedHash,
)
    requires
        t.stored_new_vertex(o, id, message, ma, pa),
    ensures
        o.lmi <= t.lmi,
        o.lsmi <= t.lsmi,
{
}

/// Every stored vertex whose parents are both solid (as vertices or entry
/// points) is solid itself.
pub proof fn solidification_is_complete(t: &Tangle, v: InternedHash)
    requires
        t.wf(),
        t.stored(v),
        t.solid_spec(t.vtx()[v].parents.ma),
        t.solid_spec(t.vtx()[v].parents.pa),
    ensures
        t.vtx()[v].metadata.solid,
{
}

} // verus!
