//! The example tangles used to exercise the engine: 26 messages on one
//! solid entry point, with one or two milestones.
use crate::engine::{init, Tangle};
use crate::models::{InternedHash, Message, MessageKind, MilestoneIndex, Parents};
use vstd::prelude::*;

verus! {

/// The parents of each message of the example tangles.
pub open spec fn fixture_parents(x: InternedHash) -> (InternedHash, InternedHash) {
    if x == 1u64 {
        (0u64, 0u64)
    } else if x == 2u64 {
        (0u64, 0u64)
    } else if x == 3u64 {
        (0u64, 0u64)
    } else if x == 4u64 {
        (1u64, 2u64)
    } else if x == 5u64 {
        (1u64, 2u64)
    } else if x == 6u64 {
        (2u64, 3u64)
    } else if x == 7u64 {
        (4u64, 5u64)
    } else if x == 8u64 {
        (5u64, 6u64)
    } else if x == 9u64 {
        (6u64, 3u64)
    } else if x == 10u64 {
        (7u64, 8u64)
    } else if x == 11u64 {
        (8u64, 9u64)
    } else if x == 12u64 {
        (8u64, 11u64)
    } else if x == 13u64 {
        (7u64, 10u64)
    } else if x == 14u64 {
        (10u64, 8u64)
    } else if x == 15u64 {
        (11u64, 9u64)
    } else if x == 16u64 {
        (11u64, 9u64)
    } else if x == 17u64 {
        (13u64, 14u64)
    } else if x == 18u64 {
        (13u64, 14u64)
    } else if x == 19u64 {
        (12u64, 15u64)
    } else if x == 20u64 {
        (15u64, 16u64)
    } else if x == 21u64 {
        (17u64, 18u64)
    } else if x == 22u64 {
        (18u64, 19u64)
    } else if x == 23u64 {
        (17u64, 21u64)
    } else if x == 24u64 {
        (21u64, 22u64)
    } else if x == 25u64 {
        (22u64, 18u64)
    } else if x == 26u64 {
        (19u64, 20u64)
    } else {
        (0u64, 0u64)
    }
}

/// `t` keeps the engine's invariants; kept opaque so that a long run of
/// inserts does not carry every invariant along.
#[verifier::opaque]
spec fn ready(t: Tangle) -> bool {
    t.wf()
}

/// Every stored vertex of `t` has the parents of the example tangles, has
/// never been selected, and is valid; opaque for the same reason.
#[verifier::opaque]
spec fn shaped(t: Tangle) -> bool {
    forall|x: InternedHash| #[trigger]
        t.stored(x) ==> t.vtx()[x].parents == (Parents {
            ma: fixture_parents(x).0,
            pa: fixture_parents(x).1,
        }) && t.vtx()[x].metadata.selected == 0 && t.vtx()[x].metadata.valid
}

/// The stored vertices of `t` are confirmed as `c` says: at `c[x]` when
/// `x` is a key of `c`, and not at all otherwise; opaque for the same reason.
#[verifier::opaque]
spec fn conf_is(t: Tangle, c: Map<InternedHash, MilestoneIndex>) -> bool {
    forall|x: InternedHash| #[trigger] t.stored(x) ==> t.vtx()[x].metadata.confirmed == c.get(x)
}

/// Every stored vertex of `t` but `w` is solid; opaque for the same reason.
#[verifier::opaque]
spec fn solid_but(t: Tangle, w: InternedHash) -> bool {
    forall|x: InternedHash| t.stored(x) && x != w ==> #[trigger] t.solid_spec(x)
}

/// Every stored vertex of `t` is solid; opaque for the same reason.
#[verifier::opaque]
spec fn all_solid(t: Tangle) -> bool {
    forall|x: InternedHash| t.stored(x) ==> #[trigger] t.solid_spec(x)
}

/// Inserts a data message whose parents are all known; the tangle stays
/// solid throughout, nothing is missing, and no confirmation changes.
fn arrive(t: &mut Tangle, id: InternedHash, message: Message, ma: InternedHash, pa: InternedHash, Ghost(c): Ghost<Map<InternedHash, MilestoneIndex>>)
    requires
        ready(*old(t)),
        shaped(*old(t)),
        conf_is(*old(t), c),
        !c.contains_key(id),
        old(t).sep_index() == map![0u64 => 0u64],
        !old(t).stored(id),
        !old(t).is_sep_spec(id),
        ma != id,
        pa != id,
        (ma, pa) == fixture_parents(id),
        !(message.kind is Milestone),
        all_solid(*old(t)),
        old(t).waiting().dom() == Set::<InternedHash>::empty(),
        old(t).stored(ma) || old(t).is_sep_spec(ma),
        old(t).stored(pa) || old(t).is_sep_spec(pa),
    ensures
        ready(*final(t)),
        shaped(*final(t)),
        final(t).vtx().dom() == old(t).vtx().dom().insert(id),
        final(t).sep_index() == old(t).sep_index(),
        final(t).lmi == match message.kind {
            MessageKind::Milestone(m) => if m > old(t).lmi {
                m
            } else {
                old(t).lmi
            },
            _ => old(t).lmi,
        },
        old(t).lsmi <= final(t).lsmi,
        conf_is(*final(t), c),
        all_solid(*final(t)),
        final(t).waiting().dom() == Set::<InternedHash>::empty(),
        final(t).tip_set() == old(t).tip_set().remove(ma).remove(pa).insert(id),
{
    let ghost o = *t;
    proof {
        reveal(ready);
        reveal(all_solid);
        if o.stored(ma) {
            assert(o.solid_spec(ma));
        }
        if o.stored(pa) {
            assert(o.solid_spec(pa));
        }
    }
    t.insert(id, message, ma, pa);
    proof {
        reveal(ready);
        reveal(all_solid);
        reveal(shaped);
        reveal(conf_is);
        assert(t.vtx()[id].parents.ma == ma && t.vtx()[id].parents.pa == pa);
        crate::laws::solidification_is_complete(t, id);
        assert forall|x: InternedHash| t.stored(x) implies #[trigger] t.solid_spec(x) by {
            if x != id {
                assert(o.solid_spec(x));
                assert(t.vtx()[x].metadata.solid);
            }
        }
        assert(t.waiting().dom() =~= Set::<InternedHash>::empty());
        assert forall|x: InternedHash| #[trigger] t.stored(x) implies t.vtx()[x].parents == (Parents {
            ma: fixture_parents(x).0,
            pa: fixture_parents(x).1,
        }) && t.vtx()[x].metadata.selected == 0 && t.vtx()[x].metadata.valid by {
            if x != id {
                assert(o.stored(x));
            }
        }
        assert forall|x: InternedHash| #[trigger] t.stored(x) implies t.vtx()[x].metadata.confirmed
            == c.get(x) by {
            if x != id {
                assert(o.stored(x));
                assert(t.vtx()[x].metadata.confirmed == o.vtx()[x].metadata.confirmed);
            }
        }
    }
}

/// Inserts a milestone whose parents are solid. `s` is the set of vertices
/// it confirms: closed under parents down to entry points and confirmed
/// vertices, and listed in `order` so that each one is a parent of the
/// milestone or of one listed before it (`from` says which).
fn arrive_milestone(
    t: &mut Tangle,
    id: InternedHash,
    message: Message,
    ma: InternedHash,
    pa: InternedHash,
    Ghost(c): Ghost<Map<InternedHash, MilestoneIndex>>,
    Ghost(s): Ghost<Set<InternedHash>>,
    Ghost(order): Ghost<Seq<InternedHash>>,
    Ghost(from): Ghost<Seq<int>>,
)
    requires
        ready(*old(t)),
        shaped(*old(t)),
        conf_is(*old(t), c),
        !c.contains_key(id),
        old(t).sep_index() == map![0u64 => 0u64],
        !old(t).stored(id),
        !old(t).is_sep_spec(id),
        ma != id,
        pa != id,
        (ma, pa) == fixture_parents(id),
        message.kind is Milestone,
        all_solid(*old(t)),
        old(t).waiting().dom() == Set::<InternedHash>::empty(),
        old(t).stored(ma) || old(t).is_sep_spec(ma),
        old(t).stored(pa) || old(t).is_sep_spec(pa),
        forall|y: InternedHash| #[trigger] s.contains(y) ==> old(t).stored(y) && !c.contains_key(y),
        s.contains(ma) || ma == 0 || c.contains_key(ma),
        s.contains(pa) || pa == 0 || c.contains_key(pa),
        forall|y: InternedHash| #[trigger] s.contains(y) ==> {
            &&& s.contains(fixture_parents(y).0) || fixture_parents(y).0 == 0 || c.contains_key(fixture_parents(y).0)
            &&& s.contains(fixture_parents(y).1) || fixture_parents(y).1 == 0 || c.contains_key(fixture_parents(y).1)
        },
        order.len() == from.len(),
        forall|y: InternedHash| #[trigger] s.contains(y) ==> order.contains(y),
        forall|i: int| 0 <= i < order.len() ==> s.contains(#[trigger] order[i]) && (order[i] == ma
            || order[i] == pa || (0 <= from[i] < i && (fixture_parents(order[from[i]]).0 == order[i]
            || fixture_parents(order[from[i]]).1 == order[i]))),
    ensures
        ready(*final(t)),
        shaped(*final(t)),
        final(t).vtx().dom() == old(t).vtx().dom().insert(id),
        final(t).sep_index() == old(t).sep_index(),
        final(t).lmi == match message.kind {
            MessageKind::Milestone(m) => if m > old(t).lmi {
                m
            } else {
                old(t).lmi
            },
            _ => old(t).lmi,
        },
        old(t).lsmi <= final(t).lsmi,
        conf_is(*final(t), c.union_prefer_right(Map::new(|x: InternedHash| s.contains(x) || x == id, |x: InternedHash| message.kind->Milestone_0))),
        all_solid(*final(t)),
        final(t).waiting().dom() == Set::<InternedHash>::empty(),
        final(t).tip_set() == old(t).tip_set().remove(ma).remove(pa).insert(id),
        message.kind->Milestone_0 <= final(t).lsmi,
{
    let ghost o = *t;
    proof {
        reveal(ready);
        reveal(all_solid);
        if o.stored(ma) {
            assert(o.solid_spec(ma));
        }
        if o.stored(pa) {
            assert(o.solid_spec(pa));
        }
    }
    t.insert(id, message, ma, pa);
    proof {
        reveal(ready);
        reveal(all_solid);
        reveal(shaped);
        reveal(conf_is);
        assert(t.vtx()[id].parents.ma == ma && t.vtx()[id].parents.pa == pa);
        crate::laws::solidification_is_complete(t, id);
        assert forall|x: InternedHash| t.stored(x) implies #[trigger] t.solid_spec(x) by {
            if x != id {
                assert(o.solid_spec(x));
                assert(t.vtx()[x].metadata.solid);
            }
        }
        assert(t.waiting().dom() =~= Set::<InternedHash>::empty());
        assert forall|x: InternedHash| #[trigger] t.stored(x) implies t.vtx()[x].parents == (Parents {
            ma: fixture_parents(x).0,
            pa: fixture_parents(x).1,
        }) && t.vtx()[x].metadata.selected == 0 && t.vtx()[x].metadata.valid by {
            if x != id {
                assert(o.stored(x));
            }
        }
        let m = message.kind->Milestone_0;
        let c2 = c.union_prefer_right(Map::new(|x: InternedHash| s.contains(x) || x == id, |x: InternedHash| m));
        assert forall|x: InternedHash| #[trigger] t.stored(x) implies t.vtx()[x].metadata.confirmed
            == c2.get(x) by {
            if x != id {
                assert(o.stored(x));
                if s.contains(x) {
                    let i = choose|i: int| 0 <= i < order.len() && order[i] == x;
                    lemma_order_reached(o, ma, pa, c, s, order, from, i);
                    assert(o.vtx()[x].metadata.confirmed is None);
                } else if o.vtx()[x].metadata.confirmed is None {
                    if o.reaches(ma, x) {
                        let path = choose|path: Seq<InternedHash>| #[trigger] o.cone_path(ma, path) && path.last() == x;
                        lemma_path_within(o, c, s, ma, path, path.len() - 1);
                    }
                    if o.reaches(pa, x) {
                        let path = choose|path: Seq<InternedHash>| #[trigger] o.cone_path(pa, path) && path.last() == x;
                        lemma_path_within(o, c, s, pa, path, path.len() - 1);
                    }
                }
            }
        }
    }
}

/// Each vertex listed in `order` lies in the past cone of the milestone's
/// parents.
proof fn lemma_order_reached(
    o: Tangle,
    ma: InternedHash,
    pa: InternedHash,
    c: Map<InternedHash, MilestoneIndex>,
    s: Set<InternedHash>,
    order: Seq<InternedHash>,
    from: Seq<int>,
    i: int,
)
    requires
        shaped(o),
        conf_is(o, c),
        forall|y: InternedHash| #[trigger] s.contains(y) ==> o.stored(y) && !c.contains_key(y),
        order.len() == from.len(),
        forall|k: int| 0 <= k < order.len() ==> s.contains(#[trigger] order[k]) && (order[k] == ma
            || order[k] == pa || (0 <= from[k] < k && (fixture_parents(order[from[k]]).0 == order[k]
            || fixture_parents(order[from[k]]).1 == order[k]))),
        0 <= i < order.len(),
    ensures
        o.reaches(ma, order[i]) || o.reaches(pa, order[i]),
    decreases i,
{
    reveal(shaped);
    reveal(conf_is);
    let x = order[i];
    assert(s.contains(x));
    if x == ma {
        assert(o.cone_path(ma, seq![ma]) && seq![ma].last() == ma);
    } else if x == pa {
        assert(o.cone_path(pa, seq![pa]) && seq![pa].last() == pa);
    } else {
        let j = from[i];
        lemma_order_reached(o, ma, pa, c, s, order, from, j);
        let y = order[j];
        assert(s.contains(y));
        assert(o.stored(y));
        assert(o.vtx()[y].metadata.confirmed is None);
        assert(o.vtx()[y].parents.lists(x));
        if o.reaches(ma, y) {
            let path = choose|path: Seq<InternedHash>| #[trigger] o.cone_path(ma, path) && path.last() == y;
            o.lemma_extend_path(ma, path, x);
        } else {
            let path = choose|path: Seq<InternedHash>| #[trigger] o.cone_path(pa, path) && path.last() == y;
            o.lemma_extend_path(pa, path, x);
        }
    }
}

/// A path from a parent of the milestone through unconfirmed vertices stays
/// in `s`, entry points and confirmed vertices.
proof fn lemma_path_within(
    o: Tangle,
    c: Map<InternedHash, MilestoneIndex>,
    s: Set<InternedHash>,
    from: InternedHash,
    path: Seq<InternedHash>,
    n: int,
)
    requires
        o.wf(),
        shaped(o),
        conf_is(o, c),
        o.sep_index() == map![0u64 => 0u64],
        s.contains(from) || from == 0 || c.contains_key(from),
        forall|y: InternedHash| #[trigger] s.contains(y) ==> {
            &&& s.contains(fixture_parents(y).0) || fixture_parents(y).0 == 0 || c.contains_key(fixture_parents(y).0)
            &&& s.contains(fixture_parents(y).1) || fixture_parents(y).1 == 0 || c.contains_key(fixture_parents(y).1)
        },
        o.cone_path(from, path),
        0 <= n < path.len(),
    ensures
        s.contains(path[n]) || path[n] == 0 || c.contains_key(path[n]),
        o.stored(path[n]) && o.vtx()[path[n]].metadata.confirmed is None ==> s.contains(path[n]),
    decreases n,
{
    reveal(shaped);
    reveal(conf_is);
    assert(o.is_sep_spec(0));
    if n > 0 {
        lemma_path_within(o, c, s, from, path, n - 1);
        let y = path[n - 1];
        assert(o.vtx()[path[(n - 1)]].parents.lists(path[(n - 1) + 1]));
        assert(o.stored(y));
        assert(s.contains(y));
    }
}

/// Inserts a data message whose parent `pa` has not arrived yet.
fn arrive_early(t: &mut Tangle, id: InternedHash, message: Message, ma: InternedHash, pa: InternedHash, Ghost(c): Ghost<Map<InternedHash, MilestoneIndex>>)
    requires
        ready(*old(t)),
        shaped(*old(t)),
        conf_is(*old(t), c),
        !c.contains_key(id),
        old(t).sep_index() == map![0u64 => 0u64],
        !old(t).stored(id),
        !old(t).is_sep_spec(id),
        ma != id,
        pa != id,
        (ma, pa) == fixture_parents(id),
        !(message.kind is Milestone),
        all_solid(*old(t)),
        old(t).waiting().dom() == Set::<InternedHash>::empty(),
        old(t).stored(ma),
        !old(t).stored(pa),
        !old(t).is_sep_spec(pa),
    ensures
        ready(*final(t)),
        shaped(*final(t)),
        final(t).vtx().dom() == old(t).vtx().dom().insert(id),
        final(t).sep_index() == old(t).sep_index(),
        final(t).lmi == match message.kind {
            MessageKind::Milestone(m) => if m > old(t).lmi {
                m
            } else {
                old(t).lmi
            },
            _ => old(t).lmi,
        },
        old(t).lsmi <= final(t).lsmi,
        conf_is(*final(t), c),
        solid_but(*final(t), id),
        final(t).vtx()[id].parents.ma == ma,
        final(t).vtx()[id].parents.pa == pa,
        final(t).waiting().dom() == set![pa],
        final(t).tip_set() == old(t).tip_set().remove(ma).remove(pa).insert(id),
{
    let ghost o = *t;
    proof {
        reveal(ready);
    }
    t.insert(id, message, ma, pa);
    proof {
        reveal(ready);
        reveal(all_solid);
        reveal(solid_but);
        reveal(shaped);
        reveal(conf_is);
        assert forall|x: InternedHash| t.stored(x) && x != id implies #[trigger] t.solid_spec(x) by {
            assert(o.solid_spec(x));
            assert(t.vtx()[x].metadata.solid);
        }
        assert(t.waiting().dom() =~= set![pa]);
        assert forall|x: InternedHash| #[trigger] t.stored(x) implies t.vtx()[x].parents == (Parents {
            ma: fixture_parents(x).0,
            pa: fixture_parents(x).1,
        }) && t.vtx()[x].metadata.selected == 0 && t.vtx()[x].metadata.valid by {
            if x != id {
                assert(o.stored(x));
            }
        }
        assert forall|x: InternedHash| #[trigger] t.stored(x) implies t.vtx()[x].metadata.confirmed
            == c.get(x) by {
            if x != id {
                assert(o.stored(x));
                assert(t.vtx()[x].metadata.confirmed == o.vtx()[x].metadata.confirmed);
            }
        }
    }
}

/// Inserts the missing parent of the stored vertex `w`, whose other parent is
/// solid; afterwards the whole tangle is solid and nothing is missing.
fn arrive_late(t: &mut Tangle, id: InternedHash, message: Message, ma: InternedHash, pa: InternedHash, w: InternedHash, Ghost(c): Ghost<Map<InternedHash, MilestoneIndex>>)
    requires
        ready(*old(t)),
        shaped(*old(t)),
        conf_is(*old(t), c),
        !c.contains_key(id),
        old(t).sep_index() == map![0u64 => 0u64],
        !old(t).stored(id),
        !old(t).is_sep_spec(id),
        ma != id,
        pa != id,
        (ma, pa) == fixture_parents(id),
        !(message.kind is Milestone),
        solid_but(*old(t), w),
        old(t).stored(w),
        old(t).stored(old(t).vtx()[w].parents.ma),
        old(t).vtx()[w].parents.ma != w,
        old(t).vtx()[w].parents.pa == id,
        old(t).waiting().dom() == set![id],
        old(t).stored(ma) && ma != w,
        old(t).stored(pa) && pa != w,
    ensures
        ready(*final(t)),
        shaped(*final(t)),
        final(t).vtx().dom() == old(t).vtx().dom().insert(id),
        final(t).sep_index() == old(t).sep_index(),
        final(t).lmi == match message.kind {
            MessageKind::Milestone(m) => if m > old(t).lmi {
                m
            } else {
                old(t).lmi
            },
            _ => old(t).lmi,
        },
        old(t).lsmi <= final(t).lsmi,
        conf_is(*final(t), c),
        all_solid(*final(t)),
        final(t).waiting().dom() == Set::<InternedHash>::empty(),
        final(t).tip_set() == old(t).tip_set().remove(ma).remove(pa),
{
    let ghost o = *t;
    proof {
        reveal(ready);
        reveal(solid_but);
        assert(o.solid_spec(ma) && o.solid_spec(pa));
        assert(o.solid_spec(o.vtx()[w].parents.ma));
    }
    t.insert(id, message, ma, pa);
    proof {
        reveal(ready);
        reveal(all_solid);
        reveal(solid_but);
        reveal(shaped);
        reveal(conf_is);
        assert(t.vtx()[id].parents.ma == ma && t.vtx()[id].parents.pa == pa);
        crate::laws::solidification_is_complete(t, id);
        assert(t.vtx()[w].parents == o.vtx()[w].parents);
        assert(t.vtx()[o.vtx()[w].parents.ma].metadata.solid);
        crate::laws::solidification_is_complete(t, w);
        assert forall|x: InternedHash| t.stored(x) implies #[trigger] t.solid_spec(x) by {
            if x != id && x != w {
                assert(o.solid_spec(x));
                assert(t.vtx()[x].metadata.solid);
            }
        }
        assert(t.waiting().dom() =~= Set::<InternedHash>::empty());
        assert forall|x: InternedHash| #[trigger] t.stored(x) implies t.vtx()[x].parents == (Parents {
            ma: fixture_parents(x).0,
            pa: fixture_parents(x).1,
        }) && t.vtx()[x].metadata.selected == 0 && t.vtx()[x].metadata.valid by {
            if x != id {
                assert(o.stored(x));
            }
        }
        assert forall|x: InternedHash| #[trigger] t.stored(x) implies t.vtx()[x].metadata.confirmed
            == c.get(x) by {
            if x != id {
                assert(o.stored(x));
                assert(t.vtx()[x].metadata.confirmed == o.vtx()[x].metadata.confirmed);
            }
        }
    }
}

/// A fresh engine with the solid entry point 0 at milestone index 0.
fn seeded() -> (t: Tangle)
    ensures
        ready(t),
        shaped(t),
        conf_is(t, Map::<InternedHash, MilestoneIndex>::empty()),
        all_solid(t),
        t.vtx().dom() == Set::<InternedHash>::empty(),
        t.waiting().dom() == Set::<InternedHash>::empty(),
        t.sep_index() == map![0u64 => 0u64],
        t.tip_set() == Set::<InternedHash>::empty(),
        t.lmi == 0,
        t.lsmi == 0,
{
    let mut t = init();
    t.add_solid_entrypoint(0, 0);
    proof {
        reveal(ready);
        reveal(all_solid);
        reveal(shaped);
        reveal(conf_is);
        assert(t.sep_index() =~= map![0u64 => 0u64]);
    }
    t
}

/// Entry point 0 at index 0, messages 1 to 26, and message 12 a
/// milestone with index 1.
#[verifier::rlimit(100)]
pub fn make_tangle_1_milestone() -> (t: Tangle)
    ensures
        t.wf(),
        forall|k: InternedHash| #[trigger] t.stored(k) <==> 1 <= k <= 26,
        forall|k: InternedHash| 1 <= k <= 26 ==> #[trigger] t.solid_spec(k),
        forall|k: InternedHash|
            1 <= k <= 26 ==> #[trigger] t.vtx()[k].metadata.confirmed == if set![1u64, 2u64, 3u64, 5u64, 6u64, 8u64, 9u64, 11u64, 12u64].contains(k) {
                Some(1u64)
            } else {
                None
            },
        forall|k: InternedHash|
            1 <= k <= 26 ==> #[trigger] t.vtx()[k].parents == (Parents {
                ma: fixture_parents(k).0,
                pa: fixture_parents(k).1,
            }) && t.vtx()[k].metadata.selected == 0 && t.vtx()[k].metadata.valid,
        t.waiting().dom() == Set::<InternedHash>::empty(),
        t.sep_index() == map![0u64 => 0u64],
        t.lmi == 1,
        t.tip_set() == set![23u64, 24u64, 25u64, 26u64],
        t.lsmi == 1,
{
    let mut t = seeded();
    let ghost c0 = Map::<InternedHash, MilestoneIndex>::empty();
    arrive(&mut t, 1, Message::default(), 0, 0, Ghost(c0));
    arrive(&mut t, 2, Message::default(), 0, 0, Ghost(c0));
    arrive(&mut t, 3, Message::default(), 0, 0, Ghost(c0));
    arrive(&mut t, 4, Message::default(), 1, 2, Ghost(c0));
    arrive(&mut t, 5, Message::default(), 1, 2, Ghost(c0));
    arrive(&mut t, 6, Message::default(), 2, 3, Ghost(c0));
    arrive(&mut t, 7, Message::default(), 4, 5, Ghost(c0));
    arrive(&mut t, 8, Message::default(), 5, 6, Ghost(c0));
    arrive(&mut t, 9, Message::default(), 6, 3, Ghost(c0));
    arrive(&mut t, 10, Message::default(), 7, 8, Ghost(c0));
    arrive(&mut t, 11, Message::default(), 8, 9, Ghost(c0));
    let ghost s1 = set![8u64, 11u64, 5u64, 6u64, 9u64, 1u64, 2u64, 3u64];
    let ghost order1 = seq![8u64, 11u64, 5u64, 6u64, 9u64, 1u64, 2u64, 3u64];
    let ghost from1 = seq![0int, 0int, 0int, 0int, 1int, 2int, 2int, 3int];
    arrive_milestone(&mut t, 12, Message::new((), MessageKind::Milestone(1)), 8, 11, Ghost(c0), Ghost(s1), Ghost(order1), Ghost(from1));
    let ghost c1 = c0.union_prefer_right(Map::new(|x: InternedHash| set![8u64, 11u64, 5u64, 6u64, 9u64, 1u64, 2u64, 3u64].contains(x) || x == 12u64, |x: InternedHash| 1u64));
    arrive(&mut t, 13, Message::default(), 7, 10, Ghost(c1));
    arrive(&mut t, 14, Message::default(), 10, 8, Ghost(c1));
    arrive(&mut t, 15, Message::default(), 11, 9, Ghost(c1));
    arrive(&mut t, 16, Message::default(), 11, 9, Ghost(c1));
    arrive(&mut t, 17, Message::default(), 13, 14, Ghost(c1));
    arrive(&mut t, 18, Message::default(), 13, 14, Ghost(c1));
    arrive(&mut t, 19, Message::default(), 12, 15, Ghost(c1));
    arrive(&mut t, 20, Message::default(), 15, 16, Ghost(c1));
    arrive(&mut t, 21, Message::default(), 17, 18, Ghost(c1));
    arrive(&mut t, 22, Message::default(), 18, 19, Ghost(c1));
    arrive(&mut t, 23, Message::default(), 17, 21, Ghost(c1));
    arrive(&mut t, 24, Message::default(), 21, 22, Ghost(c1));
    arrive(&mut t, 25, Message::default(), 22, 18, Ghost(c1));
    arrive(&mut t, 26, Message::default(), 19, 20, Ghost(c1));
    proof {
        reveal(ready);
        reveal(all_solid);
        reveal(shaped);
        reveal(conf_is);
        assert forall|k: InternedHash| #[trigger] t.stored(k) <==> 1 <= k <= 26 by {}
        assert forall|k: InternedHash| 1 <= k <= 26 implies #[trigger] t.solid_spec(k) by {
            assert(t.stored(k));
        }
        assert forall|k: InternedHash| 1 <= k <= 26 implies #[trigger] t.vtx()[k].metadata.confirmed == if set![1u64, 2u64, 3u64, 5u64, 6u64, 8u64, 9u64, 11u64, 12u64].contains(k) {
                Some(1u64)
            } else {
                None
            } by {
            assert(t.stored(k));
        }
        assert forall|k: InternedHash| 1 <= k <= 26 implies #[trigger] t.vtx()[k].parents == (Parents {
            ma: fixture_parents(k).0,
            pa: fixture_parents(k).1,
        }) && t.vtx()[k].metadata.selected == 0 && t.vtx()[k].metadata.valid by {
            assert(t.stored(k));
        }
        assert(t.tip_set() =~= set![23u64, 24u64, 25u64, 26u64]);
        assert(t.lsmi <= t.lmi);
    }
    t
}

/// Entry point 0 at index 0, messages 1 to 26, and messages 8 and 15
/// milestones with indices 1 and 2.
pub fn make_tangle_2_milestones() -> (t: Tangle)
    ensures
        t.wf(),
        forall|k: InternedHash| #[trigger] t.stored(k) <==> 1 <= k <= 26,
        forall|k: InternedHash| 1 <= k <= 26 ==> #[trigger] t.solid_spec(k),
        forall|k: InternedHash|
            1 <= k <= 26 ==> #[trigger] t.vtx()[k].metadata.confirmed == if set![1u64, 2u64, 3u64, 5u64, 6u64, 8u64].contains(k) {
                Some(1u64)
            } else if set![9u64, 11u64, 15u64].contains(k) {
                Some(2u64)
            } else {
                None
            },
        forall|k: InternedHash|
            1 <= k <= 26 ==> #[trigger] t.vtx()[k].parents == (Parents {
                ma: fixture_parents(k).0,
                pa: fixture_parents(k).1,
            }) && t.vtx()[k].metadata.selected == 0 && t.vtx()[k].metadata.valid,
        t.waiting().dom() == Set::<InternedHash>::empty(),
        t.sep_index() == map![0u64 => 0u64],
        t.lmi == 2,
        t.tip_set() == set![23u64, 24u64, 25u64, 26u64],
        t.lsmi == 2,
{
    let mut t = seeded();
    let ghost c0 = Map::<InternedHash, MilestoneIndex>::empty();
    arrive(&mut t, 1, Message::default(), 0, 0, Ghost(c0));
    arrive(&mut t, 2, Message::default(), 0, 0, Ghost(c0));
    arrive(&mut t, 3, Message::default(), 0, 0, Ghost(c0));
    arrive(&mut t, 4, Message::default(), 1, 2, Ghost(c0));
    arrive(&mut t, 5, Message::default(), 1, 2, Ghost(c0));
    arrive(&mut t, 6, Message::default(), 2, 3, Ghost(c0));
    arrive(&mut t, 7, Message::default(), 4, 5, Ghost(c0));
    let ghost s2 = set![5u64, 6u64, 1u64, 2u64, 3u64];
    let ghost order2 = seq![5u64, 6u64, 1u64, 2u64, 3u64];
    let ghost from2 = seq![0int, 0int, 0int, 0int, 1int];
    arrive_milestone(&mut t, 8, Message::new((), MessageKind::Milestone(1)), 5, 6, Ghost(c0), Ghost(s2), Ghost(order2), Ghost(from2));
    let ghost c1 = c0.union_prefer_right(Map::new(|x: InternedHash| set![5u64, 6u64, 1u64, 2u64, 3u64].contains(x) || x == 8u64, |x: InternedHash| 1u64));
    arrive(&mut t, 9, Message::default(), 6, 3, Ghost(c1));
    arrive(&mut t, 10, Message::default(), 7, 8, Ghost(c1));
    arrive(&mut t, 11, Message::default(), 8, 9, Ghost(c1));
    arrive(&mut t, 12, Message::default(), 8, 11, Ghost(c1));
    arrive(&mut t, 13, Message::default(), 7, 10, Ghost(c1));
    arrive(&mut t, 14, Message::default(), 10, 8, Ghost(c1));
    let ghost s3 = set![11u64, 9u64];
    let ghost order3 = seq![11u64, 9u64];
    let ghost from3 = seq![0int, 0int];
    arrive_milestone(&mut t, 15, Message::new((), MessageKind::Milestone(2)), 11, 9, Ghost(c1), Ghost(s3), Ghost(order3), Ghost(from3));
    let ghost c2 = c1.union_prefer_right(Map::new(|x: InternedHash| set![11u64, 9u64].contains(x) || x == 15u64, |x: InternedHash| 2u64));
    arrive(&mut t, 16, Message::default(), 11, 9, Ghost(c2));
    arrive(&mut t, 17, Message::default(), 13, 14, Ghost(c2));
    arrive(&mut t, 18, Message::default(), 13, 14, Ghost(c2));
    arrive(&mut t, 19, Message::default(), 12, 15, Ghost(c2));
    arrive(&mut t, 20, Message::default(), 15, 16, Ghost(c2));
    arrive(&mut t, 21, Message::default(), 17, 18, Ghost(c2));
    arrive(&mut t, 22, Message::default(), 18, 19, Ghost(c2));
    arrive(&mut t, 23, Message::default(), 17, 21, Ghost(c2));
    arrive(&mut t, 24, Message::default(), 21, 22, Ghost(c2));
    arrive(&mut t, 25, Message::default(), 22, 18, Ghost(c2));
    arrive(&mut t, 26, Message::default(), 19, 20, Ghost(c2));
    proof {
        reveal(ready);
        reveal(all_solid);
        reveal(shaped);
        reveal(conf_is);
        assert forall|k: InternedHash| #[trigger] t.stored(k) <==> 1 <= k <= 26 by {}
        assert forall|k: InternedHash| 1 <= k <= 26 implies #[trigger] t.solid_spec(k) by {
            assert(t.stored(k));
        }
        assert forall|k: InternedHash| 1 <= k <= 26 implies #[trigger] t.vtx()[k].metadata.confirmed == if set![1u64, 2u64, 3u64, 5u64, 6u64, 8u64].contains(k) {
                Some(1u64)
            } else if set![9u64, 11u64, 15u64].contains(k) {
                Some(2u64)
            } else {
                None
            } by {
            assert(t.stored(k));
        }
        assert forall|k: InternedHash| 1 <= k <= 26 implies #[trigger] t.vtx()[k].parents == (Parents {
            ma: fixture_parents(k).0,
            pa: fixture_parents(k).1,
        }) && t.vtx()[k].metadata.selected == 0 && t.vtx()[k].metadata.valid by {
            assert(t.stored(k));
        }
        assert(t.tip_set() =~= set![23u64, 24u64, 25u64, 26u64]);
        assert(t.lsmi <= t.lmi);
    }
    t
}

/// The tangle of `make_tangle_2_milestones`, with message 12 arriving
/// before its parent 11.
#[verifier::rlimit(100)]
pub fn make_tangle_reversed_arrival() -> (t: Tangle)
    ensures
        t.wf(),
        forall|k: InternedHash| #[trigger] t.stored(k) <==> 1 <= k <= 26,
        forall|k: InternedHash| 1 <= k <= 26 ==> #[trigger] t.solid_spec(k),
        forall|k: InternedHash|
            1 <= k <= 26 ==> #[trigger] t.vtx()[k].metadata.confirmed == if set![1u64, 2u64, 3u64, 5u64, 6u64, 8u64].contains(k) {
                Some(1u64)
            } else if set![9u64, 11u64, 15u64].contains(k) {
                Some(2u64)
            } else {
                None
            },
        forall|k: InternedHash|
            1 <= k <= 26 ==> #[trigger] t.vtx()[k].parents == (Parents {
                ma: fixture_parents(k).0,
                pa: fixture_parents(k).1,
            }) && t.vtx()[k].metadata.selected == 0 && t.vtx()[k].metadata.valid,
        t.waiting().dom() == Set::<InternedHash>::empty(),
        t.sep_index() == map![0u64 => 0u64],
        t.lmi == 2,
        t.tip_set() == set![23u64, 24u64, 25u64, 26u64],
        t.lsmi == 2,
{
    let mut t = seeded();
    let ghost c0 = Map::<InternedHash, MilestoneIndex>::empty();
    arrive(&mut t, 1, Message::default(), 0, 0, Ghost(c0));
    arrive(&mut t, 2, Message::default(), 0, 0, Ghost(c0));
    arrive(&mut t, 3, Message::default(), 0, 0, Ghost(c0));
    arrive(&mut t, 4, Message::default(), 1, 2, Ghost(c0));
    arrive(&mut t, 5, Message::default(), 1, 2, Ghost(c0));
    arrive(&mut t, 6, Message::default(), 2, 3, Ghost(c0));
    arrive(&mut t, 7, Message::default(), 4, 5, Ghost(c0));
    let ghost s4 = set![5u64, 6u64, 1u64, 2u64, 3u64];
    let ghost order4 = seq![5u64, 6u64, 1u64, 2u64, 3u64];
    let ghost from4 = seq![0int, 0int, 0int, 0int, 1int];
    arrive_milestone(&mut t, 8, Message::new((), MessageKind::Milestone(1)), 5, 6, Ghost(c0), Ghost(s4), Ghost(order4), Ghost(from4));
    let ghost c1 = c0.union_prefer_right(Map::new(|x: InternedHash| set![5u64, 6u64, 1u64, 2u64, 3u64].contains(x) || x == 8u64, |x: InternedHash| 1u64));
    arrive(&mut t, 9, Message::default(), 6, 3, Ghost(c1));
    arrive(&mut t, 10, Message::default(), 7, 8, Ghost(c1));
    arrive_early(&mut t, 12, Message::default(), 8, 11, Ghost(c1));
    arrive_late(&mut t, 11, Message::default(), 8, 9, 12, Ghost(c1));
    arrive(&mut t, 13, Message::default(), 7, 10, Ghost(c1));
    arrive(&mut t, 14, Message::default(), 10, 8, Ghost(c1));
    let ghost s5 = set![11u64, 9u64];
    let ghost order5 = seq![11u64, 9u64];
    let ghost from5 = seq![0int, 0int];
    arrive_milestone(&mut t, 15, Message::new((), MessageKind::Milestone(2)), 11, 9, Ghost(c1), Ghost(s5), Ghost(order5), Ghost(from5));
    let ghost c2 = c1.union_prefer_right(Map::new(|x: InternedHash| set![11u64, 9u64].contains(x) || x == 15u64, |x: InternedHash| 2u64));
    arrive(&mut t, 16, Message::default(), 11, 9, Ghost(c2));
    arrive(&mut t, 17, Message::default(), 13, 14, Ghost(c2));
    arrive(&mut t, 18, Message::default(), 13, 14, Ghost(c2));
    arrive(&mut t, 19, Message::default(), 12, 15, Ghost(c2));
    arrive(&mut t, 20, Message::default(), 15, 16, Ghost(c2));
    arrive(&mut t, 21, Message::default(), 17, 18, Ghost(c2));
    arrive(&mut t, 22, Message::default(), 18, 19, Ghost(c2));
    arrive(&mut t, 23, Message::default(), 17, 21, Ghost(c2));
    arrive(&mut t, 24, Message::default(), 21, 22, Ghost(c2));
    arrive(&mut t, 25, Message::default(), 22, 18, Ghost(c2));
    arrive(&mut t, 26, Message::default(), 19, 20, Ghost(c2));
    proof {
        reveal(ready);
        reveal(all_solid);
        reveal(shaped);
        reveal(conf_is);
        assert forall|k: InternedHash| #[trigger] t.stored(k) <==> 1 <= k <= 26 by {}
        assert forall|k: InternedHash| 1 <= k <= 26 implies #[trigger] t.solid_spec(k) by {
            assert(t.stored(k));
        }
        assert forall|k: InternedHash| 1 <= k <= 26 implies #[trigger] t.vtx()[k].metadata.confirmed == if set![1u64, 2u64, 3u64, 5u64, 6u64, 8u64].contains(k) {
                Some(1u64)
            } else if set![9u64, 11u64, 15u64].contains(k) {
                Some(2u64)
            } else {
                None
            } by {
            assert(t.stored(k));
        }
        assert forall|k: InternedHash| 1 <= k <= 26 implies #[trigger] t.vtx()[k].parents == (Parents {
            ma: fixture_parents(k).0,
            pa: fixture_parents(k).1,
        }) && t.vtx()[k].metadata.selected == 0 && t.vtx()[k].metadata.valid by {
            assert(t.stored(k));
        }
        assert(t.tip_set() =~= set![23u64, 24u64, 25u64, 26u64]);
        assert(t.lsmi <= t.lmi);
    }
    t
}

} // verus!
