//! Solidification: the downward wave that marks vertices solid and assigns
//! their root snapshot keys once both parents are solid.
use crate::engine::Tangle;
use crate::models::{key_max, key_min, IndexId, InternedHash, Metadata, Vertex};
use crate::store::vertices_get;
use vstd::prelude::*;

verus! {

impl Tangle {
    /// The stored vertices that are not solid yet.
    pub open spec fn unsolid_ids(&self) -> Set<InternedHash> {
        self.vtx().dom().filter(|k: InternedHash| !self.vtx()[k].metadata.solid)
    }

    /// Solidification is complete but for the vertices in `pending`.
    pub open spec fn closed_except(&self, pending: Seq<InternedHash>) -> bool {
        forall|x: InternedHash|
            #![trigger self.vtx()[x]]
            self.stored(x) && self.solid_spec(self.vtx()[x].parents.ma) && self.solid_spec(
                self.vtx()[x].parents.pa,
            ) && !self.vtx()[x].metadata.solid ==> pending.contains(x)
    }

    /// The oldest root snapshot key that `p` hands to a child.
    pub open spec fn otrsi_key(&self, p: InternedHash) -> IndexId {
        IndexId(self.otrsi_spec(p)->0, p)
    }

    /// The youngest root snapshot key that `p` hands to a child.
    pub open spec fn ytrsi_key(&self, p: InternedHash) -> IndexId {
        IndexId(self.ytrsi_spec(p)->0, p)
    }

    /// Every vertex that is solid in `self` but was not in `o` holds the
    /// minimum of its parents' oldest keys and the maximum of their youngest.
    pub open spec fn solidified_from_parents(&self, o: &Tangle) -> bool {
        forall|x: InternedHash|
            #![trigger self.vtx()[x]]
            self.stored(x) && self.vtx()[x].metadata.solid && !(o.stored(x)
                && o.vtx()[x].metadata.solid) && self.vtx()[x].metadata.confirmed is None ==> {
                &&& self.vtx()[x].metadata.otrsi == Some(
                    key_min(
                        self.otrsi_key(self.vtx()[x].parents.ma),
                        self.otrsi_key(self.vtx()[x].parents.pa),
                    ),
                )
                &&& self.vtx()[x].metadata.ytrsi == Some(
                    key_max(
                        self.ytrsi_key(self.vtx()[x].parents.ma),
                        self.ytrsi_key(self.vtx()[x].parents.pa),
                    ),
                )
            }
    }

    /// `path` runs from its first vertex towards the future, one child at a time.
    pub open spec fn child_path(&self, path: Seq<InternedHash>) -> bool {
        &&& path.len() >= 1
        &&& forall|i: int|
            #![trigger path[i + 1]]
            0 <= i < path.len() - 1 ==> self.children_spec(path[i]).contains(path[i + 1])
    }

    /// `x` lies in the future cone of `from` (`from` included).
    pub open spec fn descends(&self, from: InternedHash, x: InternedHash) -> bool {
        exists|path: Seq<InternedHash>|
            #[trigger] self.child_path(path) && path[0] == from && path.last() == x
    }

    pub proof fn lemma_descends_self(&self, from: InternedHash)
        ensures
            self.descends(from, from),
    {
        let path = seq![from];
        assert(self.child_path(path) && path[0] == from && path.last() == from);
    }

    pub proof fn lemma_descends_step(&self, from: InternedHash, y: InternedHash, x: InternedHash)
        requires
            self.descends(from, y),
            self.children_spec(y).contains(x),
        ensures
            self.descends(from, x),
    {
        let path = choose|path: Seq<InternedHash>|
            #[trigger] self.child_path(path) && path[0] == from && path.last() == y;
        let q = path.push(x);
        assert forall|i: int| 0 <= i < q.len() - 1 implies self.children_spec(#[trigger] q[i]).contains(q[i + 1]) by {
            if i < path.len() - 1 {
                assert(q[i] == path[i] && q[i + 1] == path[i + 1]);
                assert(self.children_spec(path[i]).contains(path[i + 1]));
            } else {
                assert(q[i] == y && q[i + 1] == x);
            }
        }
        assert(self.child_path(q)) by {
            assert forall|i: int| #![trigger q[i + 1]] 0 <= i < q.len() - 1 implies self.children_spec(q[i]).contains(q[i + 1]) by {
                assert(self.children_spec(q[i]).contains(q[i + 1]));
            }
        }
        assert(q[0] == from && q.last() == x);
    }

    /// `x` is a milestone that is solid in `self` and was not in `o`.
    pub open spec fn newly_solid_milestone(&self, o: &Tangle, x: InternedHash) -> bool {
        &&& self.stored(x)
        &&& self.vtx()[x].metadata.solid
        &&& !(o.stored(x) && o.vtx()[x].metadata.solid)
        &&& self.vtx()[x].message.kind is Milestone
    }

    /// The latest solid milestone index of `self` is the largest of that of
    /// `o` and the indices of the milestones that became solid since `o`.
    pub open spec fn lsmi_follows(&self, o: &Tangle) -> bool {
        &&& o.lsmi <= self.lsmi
        &&& forall|x: InternedHash| #[trigger]
            self.newly_solid_milestone(o, x) ==> self.vtx()[x].message.kind->Milestone_0 <= self.lsmi
        &&& self.lsmi == o.lsmi || exists|x: InternedHash| #[trigger]
            self.newly_solid_milestone(o, x) && self.vtx()[x].message.kind->Milestone_0 == self.lsmi
    }

    /// Only solidification happened between `o` and `self`: solid vertices
    /// kept their metadata, the others changed only by becoming solid.
    pub open spec fn only_solidified(&self, o: &Tangle) -> bool {
        forall|x: InternedHash|
            #![trigger self.vtx()[x]]
            o.stored(x) ==> {
                &&& o.vtx()[x].metadata.solid ==> self.vtx()[x].metadata == o.vtx()[x].metadata
                &&& !self.vtx()[x].metadata.solid ==> self.vtx()[x].metadata
                    == o.vtx()[x].metadata
                &&& self.vtx()[x].metadata.confirmed == o.vtx()[x].metadata.confirmed
                &&& self.vtx()[x].metadata.selected == o.vtx()[x].metadata.selected
                &&& self.vtx()[x].metadata.valid == o.vtx()[x].metadata.valid
            }
    }

    proof fn lemma_unsolid_shrinks(&self, o: &Tangle, id: InternedHash)
        requires
            o.vtx().dom().finite(),
            o.stored(id),
            !o.vtx()[id].metadata.solid,
            self.vtx().dom() == o.vtx().dom(),
            self.vtx()[id].metadata.solid,
            forall|x: InternedHash|
                #![trigger self.vtx()[x]]
                x != id ==> self.vtx()[x] == o.vtx()[x],
        ensures
            self.unsolid_ids().len() < o.unsolid_ids().len(),
    {
        assert(self.unsolid_ids() =~= o.unsolid_ids().remove(id));
        assert(o.unsolid_ids().contains(id));
        o.vtx().dom().lemma_len_filter(|k: InternedHash| !o.vtx()[k].metadata.solid);
    }

    /// Walks the future cone of `root`, making solid every vertex whose
    /// parents have become solid, and handing it its root snapshot keys.
    pub(crate) fn propagate_state(&mut self, root: InternedHash)
        requires
            old(self).core_inv(),
            old(self).closed_except(seq![root]),
        ensures
            final(self).wf(),
            final(self).same_shape(old(self)),
            final(self).lsmi_follows(old(self)),
            final(self).only_solidified(old(self)),
            final(self).solidified_from_parents(old(self)),
            // only the future cone of `root` changes
            forall|x: InternedHash| #![trigger final(self).vtx()[x]]
                old(self).stored(x) && final(self).vtx()[x].metadata != old(self).vtx()[x].metadata
                    ==> old(self).descends(root, x),
    {
        let mut stack: Vec<InternedHash> = Vec::new();
        stack.push(root);
        proof {
            assert(stack@ =~= seq![root]);
            old(self).lemma_descends_self(root);
        }
        loop
            invariant
                self.core_inv(),
                self.closed_except(stack@),
                self.same_shape(old(self)),
                self.lsmi_follows(old(self)),
                self.only_solidified(old(self)),
                self.solidified_from_parents(old(self)),
                forall|k: int| 0 <= k < stack@.len() ==> old(self).descends(root, #[trigger] stack@[k]),
                forall|x: InternedHash| #![trigger self.vtx()[x]]
                    old(self).stored(x) && self.vtx()[x].metadata != old(self).vtx()[x].metadata
                        ==> old(self).descends(root, x),
            ensures
                self.solid_closed_inv(),
            decreases self.unsolid_ids().len(), stack.len(),
        {
            let ghost pending = stack@;
            let id = match stack.pop() {
                Some(id) => id,
                None => {
                    proof {
                        assert forall|x: InternedHash| #![trigger self.vtx()[x]]
                            self.stored(x) && self.solid_spec(self.vtx()[x].parents.ma)
                                && self.solid_spec(self.vtx()[x].parents.pa)
                            implies self.vtx()[x].metadata.solid by {
                            if !self.vtx()[x].metadata.solid {
                                assert(pending.contains(x));
                            }
                        }
                    }
                    break;
                },
            };
            let ghost before = *self;
            proof {
                assert(pending =~= stack@.push(id));
                assert(before.closed_except(stack@.push(id)));
                assert(old(self).descends(root, pending[pending.len() - 1]));
                assert forall|k: int| 0 <= k < stack@.len() implies old(self).descends(root, #[trigger] stack@[k]) by {
                    assert(stack@[k] == pending[k]);
                }
            }
            if let Some((parents, message, meta)) = vertices_get(&self.vertices, id) {
                if !meta.solid && self.is_solid(&parents.ma) && self.is_solid(&parents.pa) {
                    let o_ma = self.get_otrsi(&parents.ma);
                    let o_pa = self.get_otrsi(&parents.pa);
                    let y_ma = self.get_ytrsi(&parents.ma);
                    let y_pa = self.get_ytrsi(&parents.pa);
                    if let (Some(om), Some(op), Some(ym), Some(yp)) = (o_ma, o_pa, y_ma, y_pa) {
                        // a confirmed vertex (a milestone confirmed on arrival) keeps
                        // its own root keys; any other takes its parents' keys
                        let (otrsi, ytrsi) = match meta.confirmed {
                            Some(m) => (IndexId(m, id), IndexId(m, id)),
                            None => (
                                IndexId::min_key(IndexId(om, parents.ma), IndexId(op, parents.pa)),
                                IndexId::max_key(IndexId(ym, parents.ma), IndexId(yp, parents.pa)),
                            ),
                        };
                        let new_meta = Metadata {
                            solid: true,
                            otrsi: Some(otrsi),
                            ytrsi: Some(ytrsi),
                            ..meta
                        };
                        let kids = self.set_metadata(id, new_meta);
                        if let Some(m) = message.kind.milestone_index() {
                            if m > self.lsmi {
                                self.lsmi = m;
                            }
                        }
                        proof {
                            let bv = before.vtx()[id];
                            assert(parents == bv.parents);
                            assert(message == bv.message);
                            assert(meta == bv.metadata);
                            assert(parents.ma != id && parents.pa != id);
                            assert(self.vtx()[id].metadata == new_meta);
                            assert forall|x: InternedHash| x != id implies #[trigger] self.vtx()[x]
                                == before.vtx()[x] by {}
                            assert forall|p: InternedHash| #![trigger self.solid_spec(p)]
                                before.solid_spec(p) implies self.solid_spec(p) by {}
                            assert forall|p: InternedHash| p != id implies
                                #[trigger] self.solid_spec(p) == before.solid_spec(p)
                                && self.otrsi_spec(p) == before.otrsi_spec(p)
                                && self.ytrsi_spec(p) == before.ytrsi_spec(p) by {}
                            assert(self.vtx().dom() =~= before.vtx().dom());
                            assert(self.same_shape(&before));
                            self.lemma_same_shape_keeps_shape_inv(&before);
                            assert forall|x: InternedHash| #![trigger self.vtx()[x]]
                                old(self).stored(x) implies {
                                    &&& self.vtx()[x].parents == old(self).vtx()[x].parents
                                    &&& self.vtx()[x].children == old(self).vtx()[x].children
                                    &&& self.vtx()[x].message == old(self).vtx()[x].message
                                } by {
                                assert(before.vtx()[x].parents == old(self).vtx()[x].parents);
                            }
                            assert(self.same_shape(old(self)));
                            assert(self.solid_parents_inv());
                            assert(self.confirmed_root_inv());
                            assert(self.counters_inv());
                            assert(self.only_solidified(old(self)));
                            assert forall|x: InternedHash| #[trigger] before.newly_solid_milestone(old(self), x)
                                implies self.newly_solid_milestone(old(self), x) && self.vtx()[x] == before.vtx()[x] by {
                                assert(x != id);
                            }
                            if self.lsmi != old(self).lsmi {
                                if self.lsmi == before.lsmi {
                                    let w = choose|w: InternedHash| #[trigger]
                                        before.newly_solid_milestone(old(self), w)
                                            && before.vtx()[w].message.kind->Milestone_0 == before.lsmi;
                                    assert(self.newly_solid_milestone(old(self), w));
                                } else {
                                    assert(self.newly_solid_milestone(old(self), id));
                                }
                            }
                            assert forall|x: InternedHash| #[trigger] self.newly_solid_milestone(old(self), x)
                                implies self.vtx()[x].message.kind->Milestone_0 <= self.lsmi by {
                                if x != id {
                                    assert(before.newly_solid_milestone(old(self), x));
                                }
                            }
                            assert(self.lsmi_follows(old(self)));
                            assert(self.solidified_from_parents(old(self)));
                        }
                        let ghost mid = *self;
                        let ghost rest = stack@;
                        let mut i: usize = 0;
                        while i < kids.len()
                            invariant
                                *self == mid,
                                0 <= i <= kids.len(),
                                stack@ == rest + kids@.subrange(0, i as int),
                            decreases kids.len() - i,
                        {
                            stack.push(kids[i]);
                            i = i + 1;
                            proof {
                                assert(stack@ =~= rest + kids@.subrange(0, i as int));
                            }
                        }
                        proof {
                            assert(kids@.subrange(0, kids@.len() as int) =~= kids@);
                            assert(before.vtx()[id].children == old(self).vtx()[id].children);
                            assert forall|k: int| 0 <= k < stack@.len() implies old(self).descends(root, #[trigger] stack@[k]) by {
                                if k >= rest.len() {
                                    assert(stack@[k] == kids@[k - rest.len()]);
                                    assert(kids@.to_set().contains(kids@[k - rest.len()]));
                                    old(self).lemma_descends_step(root, id, stack@[k]);
                                } else {
                                    assert(stack@[k] == rest[k]);
                                }
                            }
                            assert forall|x: InternedHash| #![trigger self.vtx()[x]]
                                self.stored(x) && self.solid_spec(self.vtx()[x].parents.ma)
                                    && self.solid_spec(self.vtx()[x].parents.pa)
                                    && !self.vtx()[x].metadata.solid implies stack@.contains(x) by {
                                assert(x != id);
                                assert(self.vtx()[x] == before.vtx()[x]);
                                if before.solid_spec(before.vtx()[x].parents.ma)
                                    && before.solid_spec(before.vtx()[x].parents.pa) {
                                    assert(before.closed_except(rest.push(id)));
                                    assert(rest.push(id).contains(x));
                                    let j = choose|j: int| 0 <= j < rest.push(id).len() && rest.push(id)[j] == x;
                                    assert(rest[j] == x);
                                    assert(stack@[j] == x);
                                } else {
                                    assert(before.vtx()[x].parents.lists(id));
                                    assert(before.children_spec(id).contains(x));
                                    assert(kids@.to_set().contains(x));
                                    let j = choose|j: int| 0 <= j < kids@.len() && kids@[j] == x;
                                    assert(stack@[rest.len() + j] == x);
                                }
                            }
                            self.lemma_unsolid_shrinks(&before, id);
                        }
                    } else {
                        proof {
                            assert(false);
                        }
                    }
                }
            }
        }
    }
}

} // verus!
