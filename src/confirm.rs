//! Milestone confirmation: the upward walk that finalizes a milestone's past
//! cone, and the downward walk that refreshes the root snapshot keys of the
//! vertices whose keys came from a newly confirmed vertex.
use crate::engine::Tangle;
use crate::models::{origin_of, IndexId, InternedHash, Metadata, MilestoneIndex};
use crate::store::vertices_get;
use std::collections::HashSet;
use vstd::prelude::*;

verus! {

broadcast use vstd::std_specs::hash::group_hash_axioms;

impl Tangle {
    /// The stored vertices that are not confirmed yet.
    pub open spec fn unconfirmed_ids(&self) -> Set<InternedHash> {
        self.vtx().dom().filter(|k: InternedHash| self.vtx()[k].metadata.confirmed is None)
    }

    /// `id` is an entry point or a confirmed vertex: a confirmation walk
    /// stops there.
    pub open spec fn settled(&self, id: InternedHash) -> bool {
        self.is_sep_spec(id) || (self.stored(id) && self.vtx()[id].metadata.confirmed is Some)
    }

    /// The metadata that confirmation by milestone `index` gives the vertex `id`.
    pub open spec fn confirmed_meta(m: Metadata, index: MilestoneIndex, id: InternedHash) -> Metadata {
        Metadata {
            confirmed: Some(index),
            otrsi: Some(IndexId(index, id)),
            ytrsi: Some(IndexId(index, id)),
            ..m
        }
    }

    /// Confirms, with milestone index `index`, every unconfirmed vertex in
    /// the past cone of `ma` and `pa` (not walking past entry points or
    /// confirmed vertices), and returns the ids it confirmed.
    pub(crate) fn confirm_recent_cone(
        &mut self,
        ma: InternedHash,
        pa: InternedHash,
        index: MilestoneIndex,
    ) -> (confirmed: Vec<InternedHash>)
        requires
            old(self).wf(),
            old(self).solid_spec(ma),
            old(self).solid_spec(pa),
        ensures
            final(self).wf(),
            final(self).same_shape(old(self)),
            final(self).lsmi == old(self).lsmi,
            confirmed@.no_duplicates(),
            forall|x: InternedHash| #[trigger]
                confirmed@.contains(x) ==> old(self).stored(x)
                    && old(self).vtx()[x].metadata.confirmed is None,
            forall|x: InternedHash|
                #![trigger final(self).vtx()[x]]
                old(self).stored(x) ==> final(self).vtx()[x].metadata == if confirmed@.contains(x) {
                    Tangle::confirmed_meta(old(self).vtx()[x].metadata, index, x)
                } else {
                    old(self).vtx()[x].metadata
                },
            final(self).settled(ma),
            final(self).settled(pa),
            forall|x: InternedHash| #[trigger]
                confirmed@.contains(x) ==> final(self).settled(final(self).vtx()[x].parents.ma)
                    && final(self).settled(final(self).vtx()[x].parents.pa),
            // exactly the past cone of the milestone's parents
            forall|x: InternedHash| #[trigger]
                confirmed@.contains(x) <==> old(self).stored(x)
                    && old(self).vtx()[x].metadata.confirmed is None && (old(self).reaches(ma, x)
                    || old(self).reaches(pa, x)),
    {
        let mut stack: Vec<InternedHash> = Vec::new();
        stack.push(ma);
        stack.push(pa);
        let mut confirmed: Vec<InternedHash> = Vec::new();
        proof {
            assert(stack@[0] == ma && stack@[1] == pa);
            assert(old(self).cone_path(ma, seq![ma]) && seq![ma].last() == ma);
            assert(old(self).cone_path(pa, seq![pa]) && seq![pa].last() == pa);
        }
        loop
            invariant
                self.wf(),
                self.same_shape(old(self)),
                self.lsmi == old(self).lsmi,
                forall|k: int| 0 <= k < stack@.len() ==> self.solid_spec(#[trigger] stack@[k]),
                forall|k: int|
                    0 <= k < stack@.len() ==> old(self).reaches(ma, #[trigger] stack@[k])
                        || old(self).reaches(pa, stack@[k]),
                forall|x: InternedHash| #[trigger]
                    confirmed@.contains(x) ==> old(self).reaches(ma, x) || old(self).reaches(pa, x),
                confirmed@.no_duplicates(),
                forall|x: InternedHash| #[trigger]
                    confirmed@.contains(x) ==> old(self).stored(x)
                        && old(self).vtx()[x].metadata.confirmed is None,
                forall|x: InternedHash|
                    #![trigger self.vtx()[x]]
                    old(self).stored(x) ==> self.vtx()[x].metadata == if confirmed@.contains(x) {
                        Tangle::confirmed_meta(old(self).vtx()[x].metadata, index, x)
                    } else {
                        old(self).vtx()[x].metadata
                    },
                self.settled(ma) || stack@.contains(ma),
                self.settled(pa) || stack@.contains(pa),
                forall|x: InternedHash, p: InternedHash|
                    #![trigger confirmed@.contains(x), self.vtx()[x].parents.lists(p)]
                    confirmed@.contains(x) && self.vtx()[x].parents.lists(p) ==> self.settled(p)
                        || stack@.contains(p),
            ensures
                self.settled(ma),
                self.settled(pa),
                forall|x: InternedHash, p: InternedHash|
                    #![trigger confirmed@.contains(x), self.vtx()[x].parents.lists(p)]
                    confirmed@.contains(x) && self.vtx()[x].parents.lists(p) ==> self.settled(p),
            decreases self.unconfirmed_ids().len(), stack.len(),
        {
            let ghost pending = stack@;
            let id = match stack.pop() {
                Some(id) => id,
                None => {
                    break;
                },
            };
            let ghost before = *self;
            let ghost listed = confirmed@;
            proof {
                assert(pending =~= stack@.push(id));
                assert(self.solid_spec(pending[pending.len() - 1]));
                assert forall|k: int| 0 <= k < stack@.len() implies self.solid_spec(#[trigger] stack@[k]) by {
                    assert(pending[k] == stack@[k]);
                }
                assert forall|k: int| 0 <= k < stack@.len() implies old(self).reaches(ma, #[trigger] stack@[k])
                    || old(self).reaches(pa, stack@[k]) by {
                    assert(pending[k] == stack@[k]);
                }
                assert(old(self).reaches(ma, id) || old(self).reaches(pa, id)) by {
                    assert(pending[pending.len() - 1] == id);
                }
            }
            // An id that is not stored is an entry point: the walk ends there.
            if let Some((parents, _, meta)) = vertices_get(&self.vertices, id) {
                if meta.confirmed.is_none() {
                    let new_meta = Metadata {
                        confirmed: Some(index),
                        otrsi: Some(IndexId(index, id)),
                        ytrsi: Some(IndexId(index, id)),
                        ..meta
                    };
                    let _ = self.set_metadata(id, new_meta);
                    confirmed.push(id);
                    stack.push(parents.ma);
                    stack.push(parents.pa);
                    proof {
                        self.lemma_after_confirm(&before, id, new_meta);
                        assert(!listed.contains(id));
                        assert(confirmed@ == listed.push(id));
                        assert forall|x: InternedHash| #[trigger] confirmed@.contains(x) implies
                            listed.contains(x) || x == id by {
                            let j = choose|j: int| 0 <= j < confirmed@.len() && confirmed@[j] == x;
                            if j < listed.len() {
                                assert(listed[j] == x);
                            }
                        }
                        assert(confirmed@.contains(id)) by {
                            assert(confirmed@[listed.len() as int] == id);
                        }
                        assert forall|x: InternedHash| #[trigger] listed.contains(x) implies
                            confirmed@.contains(x) by {
                            let j = choose|j: int| 0 <= j < listed.len() && listed[j] == x;
                            assert(confirmed@[j] == x);
                        }
                        assert(stack@ == pending.drop_last().push(parents.ma).push(parents.pa));
                        assert(old(self).vtx()[id].parents == parents);
                        assert(old(self).vtx()[id].metadata.confirmed is None);
                        if old(self).reaches(ma, id) {
                            let path = choose|path: Seq<InternedHash>| #[trigger] old(self).cone_path(ma, path) && path.last() == id;
                            old(self).lemma_extend_path(ma, path, parents.ma);
                            old(self).lemma_extend_path(ma, path, parents.pa);
                        } else {
                            let path = choose|path: Seq<InternedHash>| #[trigger] old(self).cone_path(pa, path) && path.last() == id;
                            old(self).lemma_extend_path(pa, path, parents.ma);
                            old(self).lemma_extend_path(pa, path, parents.pa);
                        }
                        assert forall|p: InternedHash| pending.contains(p) && p != id implies
                            #[trigger] stack@.contains(p) by {
                            let j = choose|j: int| 0 <= j < pending.len() && pending[j] == p;
                            assert(j < pending.len() - 1);
                            assert(stack@[j] == p);
                        }
                        assert(stack@[stack@.len() - 2] == parents.ma);
                        assert(stack@[stack@.len() - 1] == parents.pa);
                        assert forall|k: int| 0 <= k < stack@.len() implies self.solid_spec(
                            #[trigger] stack@[k],
                        ) by {
                            if k < stack@.len() - 2 {
                                assert(stack@[k] == pending[k]);
                            }
                        }
                        assert forall|k: int| 0 <= k < stack@.len() implies old(self).reaches(
                            ma,
                            #[trigger] stack@[k],
                        ) || old(self).reaches(pa, stack@[k]) by {
                            if k < stack@.len() - 2 {
                                assert(stack@[k] == pending[k]);
                            }
                        }
                        assert(self.unconfirmed_ids() =~= before.unconfirmed_ids().remove(id));
                        before.vtx().dom().lemma_len_filter(
                            |k: InternedHash| before.vtx()[k].metadata.confirmed is None,
                        );
                    }
                } else {
                    proof {
                        assert forall|p: InternedHash| pending.contains(p) && p != id implies
                            #[trigger] stack@.contains(p) by {
                            let j = choose|j: int| 0 <= j < pending.len() && pending[j] == p;
                            assert(j < pending.len() - 1);
                            assert(stack@[j] == p);
                        }
                    }
                }
            } else {
                proof {
                    assert forall|p: InternedHash| pending.contains(p) && p != id implies
                        #[trigger] stack@.contains(p) by {
                        let j = choose|j: int| 0 <= j < pending.len() && pending[j] == p;
                        assert(j < pending.len() - 1);
                        assert(stack@[j] == p);
                    }
                }
            }
        }
        proof {
            assert forall|x: InternedHash| #[trigger] confirmed@.contains(x) implies self.settled(
                self.vtx()[x].parents.ma,
            ) && self.settled(self.vtx()[x].parents.pa) by {
                assert(self.vtx()[x].parents.lists(self.vtx()[x].parents.ma));
                assert(self.vtx()[x].parents.lists(self.vtx()[x].parents.pa));
            }
            assert forall|x: InternedHash| #[trigger] confirmed@.contains(x) <==> old(self).stored(x)
                && old(self).vtx()[x].metadata.confirmed is None && (old(self).reaches(ma, x)
                || old(self).reaches(pa, x)) by {
                if old(self).stored(x) && old(self).vtx()[x].metadata.confirmed is None {
                    if old(self).reaches(ma, x) {
                        let path = choose|path: Seq<InternedHash>| #[trigger] old(self).cone_path(ma, path) && path.last() == x;
                        self.lemma_cone_settled(old(self), confirmed@, index, ma, path, path.len() - 1);
                    } else if old(self).reaches(pa, x) {
                        let path = choose|path: Seq<InternedHash>| #[trigger] old(self).cone_path(pa, path) && path.last() == x;
                        self.lemma_cone_settled(old(self), confirmed@, index, pa, path, path.len() - 1);
                    }
                }
            }
        }
        confirmed
    }

    /// Only the snapshot keys of unconfirmed vertices changed between `o`
    /// and `self`, and each key kept its origin.
    pub open spec fn only_keys_refreshed(&self, o: &Tangle) -> bool {
        forall|x: InternedHash|
            #![trigger self.vtx()[x]]
            o.stored(x) ==> {
                let (m, n) = (o.vtx()[x].metadata, self.vtx()[x].metadata);
                &&& n.solid == m.solid
                &&& n.confirmed == m.confirmed
                &&& n.selected == m.selected
                &&& n.valid == m.valid
                &&& m.confirmed is Some ==> n == m
                &&& (n.otrsi is Some <==> m.otrsi is Some)
                &&& (n.ytrsi is Some <==> m.ytrsi is Some)
                &&& m.otrsi is Some ==> origin_of(n.otrsi) == origin_of(m.otrsi)
                &&& m.ytrsi is Some ==> origin_of(n.ytrsi) == origin_of(m.ytrsi)
            }
    }

    /// The stored ids not in `seen`.
    pub open spec fn unseen(&self, seen: Set<InternedHash>) -> Set<InternedHash> {
        self.vtx().dom().difference(seen)
    }

    /// One child `c` of `x`: if in `o` it was unconfirmed and a key of it came
    /// from `x`, that key now carries `index`.
    pub open spec fn kid_refreshed(&self, o: &Tangle, x: InternedHash, c: InternedHash, index: MilestoneIndex) -> bool {
        o.stored(c) && o.vtx()[c].metadata.confirmed is None ==> {
            &&& o.vtx()[c].metadata.otrsi is Some && origin_of(o.vtx()[c].metadata.otrsi) == x
                ==> self.vtx()[c].metadata.otrsi == Some(IndexId(index, x))
            &&& o.vtx()[c].metadata.ytrsi is Some && origin_of(o.vtx()[c].metadata.ytrsi) == x
                ==> self.vtx()[c].metadata.ytrsi == Some(IndexId(index, x))
        }
    }

    /// Every unconfirmed child of `x` whose key came from `x` now holds
    /// `(index, x)` in that key.
    pub open spec fn keys_refreshed_from(&self, o: &Tangle, x: InternedHash, index: MilestoneIndex) -> bool {
        forall|c: InternedHash| #[trigger]
            o.children_spec(x).contains(c) ==> self.kid_refreshed(o, x, c, index)
    }

    /// `x` lies in the future cone of some vertex of `roots`.
    pub open spec fn in_cone_of(&self, roots: Seq<InternedHash>, x: InternedHash) -> bool {
        exists|r: InternedHash| #[trigger] roots.contains(r) && self.descends(r, x)
    }

    proof fn lemma_cone_step(&self, roots: Seq<InternedHash>, y: InternedHash, x: InternedHash)
        requires
            self.in_cone_of(roots, y),
            self.children_spec(y).contains(x),
        ensures
            self.in_cone_of(roots, x),
    {
        let r = choose|r: InternedHash| #[trigger] roots.contains(r) && self.descends(r, y);
        self.lemma_descends_step(r, y, x);
    }

    /// Walks the future cone of the newly confirmed vertices: a child whose
    /// oldest (youngest) key came from a vertex `id` takes `id`'s current
    /// index into that key. Confirmed children are left alone, and each
    /// vertex is queued at most once.
    pub(crate) fn update_snapshot_indices(&mut self, confirmed: Vec<InternedHash>, index: MilestoneIndex)
        requires
            old(self).wf(),
            confirmed@.no_duplicates(),
            forall|x: InternedHash| #[trigger]
                confirmed@.contains(x) ==> old(self).stored(x) && old(self).vtx()[x].metadata
                    == Tangle::confirmed_meta(old(self).vtx()[x].metadata, index, x),
        ensures
            final(self).wf(),
            final(self).same_shape(old(self)),
            final(self).lsmi == old(self).lsmi,
            final(self).only_keys_refreshed(old(self)),
            forall|x: InternedHash| #[trigger]
                confirmed@.contains(x) ==> final(self).keys_refreshed_from(old(self), x, index),
            // only the future cone of the confirmed vertices changes
            forall|x: InternedHash| #![trigger final(self).vtx()[x]]
                old(self).stored(x) && final(self).vtx()[x].metadata != old(self).vtx()[x].metadata
                    ==> old(self).in_cone_of(confirmed@, x),
    {
        let ghost list = confirmed@;
        proof {
            assert forall|x: InternedHash| #[trigger] list.contains(x) implies old(self).stored(x)
                && old(self).vtx()[x].metadata == Tangle::confirmed_meta(old(self).vtx()[x].metadata, index, x) by {
                assert(confirmed@.contains(x));
            }
        }
        let mut stack = confirmed;
        let mut seen: HashSet<InternedHash> = HashSet::new();
        let mut i: usize = 0;
        while i < stack.len()
            invariant
                0 <= i <= stack.len(),
                stack@ == list,
                list.no_duplicates(),
                forall|k: int| 0 <= k < i ==> seen@.contains(#[trigger] stack@[k]),
            decreases stack.len() - i,
        {
            seen.insert(stack[i]);
            i = i + 1;
        }
        let ghost mut done: Set<InternedHash> = Set::empty();
        proof {
            assert forall|k: int| 0 <= k < stack@.len() implies old(self).in_cone_of(list, #[trigger] stack@[k]) by {
                old(self).lemma_descends_self(stack@[k]);
                assert(list.contains(stack@[k]));
            }
            assert(self.only_keys_refreshed(old(self)));
            assert forall|x: InternedHash| #[trigger] stack@.contains(x) implies seen@.contains(x) by {
                let k = choose|k: int| 0 <= k < stack@.len() && stack@[k] == x;
            }
        }
        loop
            invariant
                self.wf(),
                self.same_shape(old(self)),
                self.lsmi == old(self).lsmi,
                self.only_keys_refreshed(old(self)),
                forall|x: InternedHash| #[trigger]
                    list.contains(x) ==> old(self).stored(x) && old(self).vtx()[x].metadata
                        == Tangle::confirmed_meta(old(self).vtx()[x].metadata, index, x),
                forall|k: int| 0 <= k < stack@.len() ==> old(self).in_cone_of(list, #[trigger] stack@[k]),
                forall|x: InternedHash| #![trigger self.vtx()[x]]
                    old(self).stored(x) && self.vtx()[x].metadata != old(self).vtx()[x].metadata
                        ==> old(self).in_cone_of(list, x),
                stack@.no_duplicates(),
                forall|x: InternedHash| #[trigger] stack@.contains(x) ==> !done.contains(x),
                forall|x: InternedHash| #[trigger] stack@.contains(x) ==> seen@.contains(x),
                forall|x: InternedHash| #[trigger] done.contains(x) ==> seen@.contains(x),
                forall|x: InternedHash| #[trigger] list.contains(x) ==> stack@.contains(x) || done.contains(x),
                forall|x: InternedHash|
                    list.contains(x) && #[trigger] done.contains(x) ==> self.keys_refreshed_from(old(self), x, index),
            ensures
                forall|x: InternedHash| #[trigger] list.contains(x) ==> done.contains(x),
            decreases self.unseen(seen@).len() + stack.len(),
        {
            let ghost measure = self.unseen(seen@).len() + stack.len();
            let ghost before_pop = *self;
            let ghost pending = stack@;
            let id = match stack.pop() {
                Some(id) => id,
                None => {
                    proof {
                        assert forall|x: InternedHash| #[trigger] list.contains(x) implies done.contains(x) by {
                            if !done.contains(x) {
                                assert(stack@.contains(x));
                            }
                        }
                    }
                    break;
                },
            };
            proof {
                assert(pending =~= stack@.push(id));
                assert(pending.contains(id)) by {
                    assert(pending[pending.len() - 1] == id);
                }
                assert forall|x: InternedHash| #[trigger] stack@.contains(x) implies pending.contains(x) && x != id by {
                    let k = choose|k: int| 0 <= k < stack@.len() && stack@[k] == x;
                    assert(pending[k] == x);
                    if x == id {
                        assert(pending[pending.len() - 1] == id);
                    }
                }
                assert forall|x: InternedHash| pending.contains(x) && x != id implies #[trigger] stack@.contains(x) by {
                    let k = choose|k: int| 0 <= k < pending.len() && pending[k] == x;
                    assert(stack@[k] == x);
                }
                if list.contains(id) {
                    assert(old(self).stored(id));
                    assert(self.vtx()[id].metadata == old(self).vtx()[id].metadata);
                }
                assert(old(self).in_cone_of(list, pending[pending.len() - 1]));
                assert forall|k: int| 0 <= k < stack@.len() implies old(self).in_cone_of(list, #[trigger] stack@[k]) by {
                    assert(stack@[k] == pending[k]);
                }
            }
            if let Some((_, _, meta)) = vertices_get(&self.vertices, id) {
                if let (Some(o), Some(y)) = (meta.otrsi, meta.ytrsi) {
                    let kids = self.children_of(id);
                    proof {
                        self.lemma_same_model_keeps_wf(&before_pop);
                        assert(self.unseen(seen@) == before_pop.unseen(seen@));
                        assert(old(self).children_spec(id) == self.children_spec(id));
                    }
                    let mut j: usize = 0;
                    while j < kids.len()
                        invariant
                            0 <= j <= kids.len(),
                            self.wf(),
                            self.same_shape(old(self)),
                            self.lsmi == old(self).lsmi,
                            self.only_keys_refreshed(old(self)),
                            self.unseen(seen@).len() + stack.len() < measure,
                            kids@.no_duplicates(),
                            forall|x: InternedHash| #[trigger]
                                list.contains(x) ==> old(self).stored(x) && old(self).vtx()[x].metadata
                                    == Tangle::confirmed_meta(old(self).vtx()[x].metadata, index, x),
                            kids@.to_set() == old(self).children_spec(id),
                            list.contains(id) ==> o == IndexId(index, id) && y == IndexId(index, id),
                            !done.contains(id),
                            forall|k: int| 0 <= k < stack@.len() ==> old(self).in_cone_of(list, #[trigger] stack@[k]),
                            forall|x: InternedHash| #![trigger self.vtx()[x]]
                                old(self).stored(x) && self.vtx()[x].metadata != old(self).vtx()[x].metadata
                                    ==> old(self).in_cone_of(list, x),
                            old(self).in_cone_of(list, id),
                            stack@.no_duplicates(),
                            forall|x: InternedHash| #[trigger] stack@.contains(x) ==> !done.contains(x) && x != id,
                            forall|x: InternedHash| #[trigger] stack@.contains(x) ==> seen@.contains(x),
                            forall|x: InternedHash| #[trigger] done.contains(x) ==> seen@.contains(x),
                            seen@.contains(id),
                            forall|x: InternedHash| #[trigger]
                                list.contains(x) ==> stack@.contains(x) || done.contains(x) || x == id,
                            forall|x: InternedHash|
                                list.contains(x) && #[trigger] done.contains(x) ==> self.keys_refreshed_from(old(self), x, index),
                            forall|k: int|
                                0 <= k < j && list.contains(id) ==> self.kid_refreshed(old(self), id, #[trigger] kids@[k], index),
                        decreases kids.len() - j,
                    {
                        let c = kids[j];
                        let ghost before_kid = *self;
                        if let Some((_, _, cm)) = vertices_get(&self.vertices, c) {
                            if cm.confirmed.is_none() {
                                let new_o = match cm.otrsi {
                                    Some(k) => if k.1 == id {
                                        Some(IndexId(o.0, id))
                                    } else {
                                        Some(k)
                                    },
                                    None => None,
                                };
                                let new_y = match cm.ytrsi {
                                    Some(k) => if k.1 == id {
                                        Some(IndexId(y.0, id))
                                    } else {
                                        Some(k)
                                    },
                                    None => None,
                                };
                                let ghost before = *self;
                                let new_meta = Metadata { otrsi: new_o, ytrsi: new_y, ..cm };
                                let _ = self.set_metadata(c, new_meta);
                                proof {
                                    self.lemma_after_refresh(&before, c, new_meta, old(self));
                                    assert(kids@.to_set().contains(c));
                                    old(self).lemma_cone_step(list, id, c);
                                    assert forall|x: InternedHash| #![trigger self.vtx()[x]]
                                        old(self).stored(x) && self.vtx()[x].metadata != old(self).vtx()[x].metadata
                                        implies old(self).in_cone_of(list, x) by {
                                        if x != c {
                                            assert(self.vtx()[x] == before.vtx()[x]);
                                        }
                                    }
                                    assert forall|x: InternedHash| x != c implies #[trigger] self.vtx()[x] == before.vtx()[x] by {}
                                    assert forall|x: InternedHash|
                                        list.contains(x) && #[trigger] done.contains(x) implies self.keys_refreshed_from(old(self), x, index) by {
                                        assert(before.keys_refreshed_from(old(self), x, index));
                                        assert forall|d: InternedHash| #[trigger]
                                            old(self).children_spec(x).contains(d) implies self.kid_refreshed(old(self), x, d, index) by {
                                            assert(before.kid_refreshed(old(self), x, d, index));
                                        }
                                    }
                                    assert forall|k: int|
                                        0 <= k < j + 1 && list.contains(id) implies self.kid_refreshed(old(self), id, #[trigger] kids@[k], index) by {
                                        if k < j {
                                            assert(kids@[k] != c);
                                            assert(before.kid_refreshed(old(self), id, kids@[k], index));
                                        }
                                    }
                                }
                                if !seen.contains(&c) {
                                    let ghost seen_before = seen@;
                                    let ghost stack_before = stack@;
                                    seen.insert(c);
                                    stack.push(c);
                                    proof {
                                        assert(self.unseen(seen@) =~= self.unseen(seen_before).remove(c));
                                        assert forall|x: InternedHash| #[trigger] stack@.contains(x) implies
                                            stack_before.contains(x) || x == c by {
                                            let k = choose|k: int| 0 <= k < stack@.len() && stack@[k] == x;
                                            if k < stack_before.len() {
                                                assert(stack_before[k] == x);
                                            }
                                        }
                                        assert forall|x: InternedHash| stack_before.contains(x) implies #[trigger] stack@.contains(x) by {
                                            let k = choose|k: int| 0 <= k < stack_before.len() && stack_before[k] == x;
                                            assert(stack@[k] == x);
                                        }
                                        assert(!stack_before.contains(c));
                                        assert forall|k: int| 0 <= k < stack@.len() implies old(self).in_cone_of(list, #[trigger] stack@[k]) by {
                                            if k < stack_before.len() {
                                                assert(stack@[k] == stack_before[k]);
                                            }
                                        }
                                        assert(stack@.no_duplicates()) by {
                                            assert forall|a: int, b: int| 0 <= a < b < stack@.len() implies stack@[a] != stack@[b] by {
                                                if b == stack@.len() - 1 {
                                                    assert(stack_before.contains(stack@[a]));
                                                } else {
                                                    assert(stack@[a] == stack_before[a] && stack@[b] == stack_before[b]);
                                                }
                                            }
                                        }
                                    }
                                }
                            } else {
                                proof {
                                    assert(self.kid_refreshed(old(self), id, c, index));
                                }
                            }
                        } else {
                            proof {
                                assert(self.kid_refreshed(old(self), id, c, index));
                            }
                        }
                        j = j + 1;
                    }
                    proof {
                        if list.contains(id) {
                            assert forall|d: InternedHash| #[trigger]
                                old(self).children_spec(id).contains(d) implies self.kid_refreshed(old(self), id, d, index) by {
                                assert(kids@.to_set().contains(d));
                                let k = choose|k: int| 0 <= k < kids@.len() && kids@[k] == d;
                            }
                        }
                    }
                }
            }
            proof {
                done = done.insert(id);
            }
        }
        proof {
            assert forall|x: InternedHash| #[trigger] confirmed@.contains(x) implies self.keys_refreshed_from(old(self), x, index) by {
                assert(list.contains(x));
            }
            assert(list == confirmed@);
        }
    }

    proof fn lemma_after_refresh(&self, before: &Tangle, c: InternedHash, new_meta: Metadata, o: &Tangle)
        requires
            before.wf(),
            before.same_shape(o),
            before.only_keys_refreshed(o),
            before.stored(c),
            before.vtx()[c].metadata.confirmed is None,
            new_meta.solid == before.vtx()[c].metadata.solid,
            new_meta.confirmed == before.vtx()[c].metadata.confirmed,
            new_meta.selected == before.vtx()[c].metadata.selected,
            new_meta.valid == before.vtx()[c].metadata.valid,
            new_meta.otrsi is Some <==> before.vtx()[c].metadata.otrsi is Some,
            new_meta.ytrsi is Some <==> before.vtx()[c].metadata.ytrsi is Some,
            before.vtx()[c].metadata.otrsi is Some ==> origin_of(new_meta.otrsi)
                == origin_of(before.vtx()[c].metadata.otrsi),
            before.vtx()[c].metadata.ytrsi is Some ==> origin_of(new_meta.ytrsi)
                == origin_of(before.vtx()[c].metadata.ytrsi),
            self.vtx() == before.vtx().insert(
                c,
                crate::models::Vertex {
                    parents: before.vtx()[c].parents,
                    children: before.vtx()[c].children,
                    message: before.vtx()[c].message,
                    metadata: new_meta,
                },
            ),
            self.missing == before.missing,
            self.seps == before.seps,
            self.tips == before.tips,
            self.lmi == before.lmi,
            self.lsmi == before.lsmi,
        ensures
            self.wf(),
            self.same_shape(o),
            self.only_keys_refreshed(o),
    {
        assert(self.vtx().dom() =~= before.vtx().dom());
        assert forall|x: InternedHash| x != c implies #[trigger] self.vtx()[x] == before.vtx()[x] by {}
        assert forall|p: InternedHash| #[trigger] self.solid_spec(p) == before.solid_spec(p) by {}
        assert(self.same_shape(before));
        self.lemma_same_shape_keeps_shape_inv(before);
        assert(self.solid_parents_inv());
        assert(self.confirmed_root_inv());
        assert(self.counters_inv());
        assert(self.solid_closed_inv());
        assert forall|x: InternedHash| #![trigger self.vtx()[x]]
            o.stored(x) implies {
                &&& self.vtx()[x].parents == o.vtx()[x].parents
                &&& self.vtx()[x].children == o.vtx()[x].children
                &&& self.vtx()[x].message == o.vtx()[x].message
            } by {
            assert(before.vtx()[x].parents == o.vtx()[x].parents);
        }
        assert(self.same_shape(o));
        assert(self.only_keys_refreshed(o));
    }

    /// Once a confirmation walk from `from` is done, every vertex on a path
    /// from `from` through vertices that were unconfirmed is settled.
    proof fn lemma_cone_settled(
        &self,
        o: &Tangle,
        list: Seq<InternedHash>,
        index: MilestoneIndex,
        from: InternedHash,
        path: Seq<InternedHash>,
        n: int,
    )
        requires
            self.wf(),
            self.same_shape(o),
            forall|x: InternedHash|
                #![trigger self.vtx()[x]]
                o.stored(x) ==> self.vtx()[x].metadata == if list.contains(x) {
                    Tangle::confirmed_meta(o.vtx()[x].metadata, index, x)
                } else {
                    o.vtx()[x].metadata
                },
            self.settled(from),
            forall|x: InternedHash| #[trigger]
                list.contains(x) ==> self.settled(self.vtx()[x].parents.ma) && self.settled(
                    self.vtx()[x].parents.pa,
                ),
            o.cone_path(from, path),
            0 <= n < path.len(),
        ensures
            self.settled(path[n]),
        decreases n,
    {
        if n > 0 {
            self.lemma_cone_settled(o, list, index, from, path, n - 1);
            let y = path[n - 1];
            assert(o.vtx()[path[(n - 1)]].parents.lists(path[(n - 1) + 1]));
            assert(o.stored(y));
            assert(self.stored(y));
            assert(!self.is_sep_spec(y));
            if !list.contains(y) {
                assert(self.vtx()[y].metadata == o.vtx()[y].metadata);
            }
            assert(self.vtx()[y].parents == o.vtx()[y].parents);
        }
    }

    proof fn lemma_after_confirm(&self, before: &Tangle, id: InternedHash, new_meta: Metadata)
        requires
            before.wf(),
            before.stored(id),
            before.solid_spec(id),
            new_meta == Tangle::confirmed_meta(before.vtx()[id].metadata, new_meta.confirmed->0, id),
            new_meta.confirmed is Some,
            self.vtx() == before.vtx().insert(
                id,
                crate::models::Vertex {
                    parents: before.vtx()[id].parents,
                    children: before.vtx()[id].children,
                    message: before.vtx()[id].message,
                    metadata: new_meta,
                },
            ),
            self.missing == before.missing,
            self.seps == before.seps,
            self.tips == before.tips,
            self.lmi == before.lmi,
            self.lsmi == before.lsmi,
        ensures
            self.wf(),
            self.same_shape(before),
            forall|p: InternedHash| #[trigger] self.solid_spec(p) == before.solid_spec(p),
            forall|x: InternedHash| x != id ==> #[trigger] self.vtx()[x] == before.vtx()[x],
    {
        assert(self.vtx().dom() =~= before.vtx().dom());
        assert forall|x: InternedHash| x != id implies #[trigger] self.vtx()[x] == before.vtx()[x] by {}
        assert forall|p: InternedHash| #[trigger] self.solid_spec(p) == before.solid_spec(p) by {}
        assert(self.same_shape(before));
        self.lemma_same_shape_keeps_shape_inv(before);
        assert(self.solid_parents_inv());
        assert(self.confirmed_root_inv());
        assert(self.counters_inv());
        assert(self.solid_closed_inv());
    }
}

} // verus!
