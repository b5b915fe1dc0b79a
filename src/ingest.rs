//! The insert path: linking a new vertex into the store, confirming a
//! milestone's past cone, and solidifying the new vertex's future cone.
use crate::engine::Tangle;
use crate::models::{origin_of, IndexId, InternedHash, Message, MessageKind, Metadata, Parents, Vertex};
use crate::store::{
    id_set, ids_insert, ids_new, ids_remove, vertices_insert, vertices_remove, waiting_insert,
    waiting_remove,
};
use vstd::prelude::*;

verus! {

impl Tangle {
    /// `self` is `o` after `insert(id, message, ma, pa)`: the new vertex is
    /// stored and linked to its parents, the tip set and the missing-parents
    /// table are updated, a milestone has confirmed its past cone, and the
    /// vertices that became solid took their parents' keys.
    pub open spec fn stored_new_vertex(
        &self,
        o: &Tangle,
        id: InternedHash,
        message: Message,
        ma: InternedHash,
        pa: InternedHash,
    ) -> bool {
        &&& self.vtx().dom() == o.vtx().dom().insert(id)
        &&& self.vtx()[id].parents == (Parents { ma, pa })
        &&& self.vtx()[id].message == message
        &&& self.vtx()[id].metadata.confirmed == message.kind.index_spec()
        &&& self.children_spec(id) == if o.waiting().contains_key(id) {
            o.waiting_children(id)
        } else {
            Set::<InternedHash>::empty()
        }
        &&& forall|x: InternedHash|
            #![trigger self.vtx()[x]]
            o.stored(x) ==> {
                &&& self.vtx()[x].parents == o.vtx()[x].parents
                &&& self.vtx()[x].message == o.vtx()[x].message
                &&& self.children_spec(x) == if x == ma || x == pa {
                    o.children_spec(x).insert(id)
                } else {
                    o.children_spec(x)
                }
                &&& o.vtx()[x].metadata.solid ==> self.vtx()[x].metadata.solid
            }
        &&& self.tip_set() == if o.waiting().contains_key(id) {
            o.tip_set().remove(ma).remove(pa)
        } else {
            o.tip_set().remove(ma).remove(pa).insert(id)
        }
        &&& forall|k: InternedHash|
            #![trigger self.waiting().contains_key(k)]
            self.waiting().contains_key(k) <==> (k != id && o.waiting().contains_key(k)) || ((k
                == ma || k == pa) && !o.stored(k) && !o.is_sep_spec(k))
        &&& forall|k: InternedHash|
            #![trigger self.waiting_children(k)]
            self.waiting().contains_key(k) ==> self.waiting_children(k) == if (k == ma || k == pa)
                && !o.stored(k) && !o.is_sep_spec(k) {
                if o.waiting().contains_key(k) {
                    o.waiting_children(k).insert(id)
                } else {
                    set![id]
                }
            } else {
                o.waiting_children(k)
            }
        &&& self.sep_index() == o.sep_index()
        &&& self.lmi == match message.kind {
            MessageKind::Milestone(m) => if m > o.lmi {
                m
            } else {
                o.lmi
            },
            _ => o.lmi,
        }
        &&& o.lsmi <= self.lsmi
        &&& message.kind is Milestone && self.vtx()[id].metadata.solid ==> message.kind->Milestone_0
            <= self.lsmi
        // a milestone confirms its past cone, down to entry points and
        // vertices that were confirmed before
        &&& message.kind is Milestone ==> self.settled(ma) && self.settled(pa)
        &&& forall|x: InternedHash|
            #![trigger self.vtx()[x]]
            o.stored(x) && self.vtx()[x].metadata.confirmed != o.vtx()[x].metadata.confirmed ==> {
                &&& o.vtx()[x].metadata.confirmed is None
                &&& self.vtx()[x].metadata.confirmed == message.kind.index_spec()
                &&& self.settled(self.vtx()[x].parents.ma)
                &&& self.settled(self.vtx()[x].parents.pa)
            }
        // exactly the past cone of a milestone's parents is confirmed
        &&& forall|x: InternedHash|
            #![trigger self.vtx()[x]]
            o.stored(x) ==> (self.vtx()[x].metadata.confirmed != o.vtx()[x].metadata.confirmed <==> {
                &&& message.kind is Milestone
                &&& o.vtx()[x].metadata.confirmed is None
                &&& o.reaches(ma, x) || o.reaches(pa, x)
            })
        // a solid child that drew a key from a newly confirmed vertex now
        // carries the confirming index in that key
        &&& forall|x: InternedHash, c: InternedHash|
            #![trigger o.children_spec(x).contains(c), self.vtx()[x], self.vtx()[c]]
            o.stored(x) && self.vtx()[x].metadata.confirmed != o.vtx()[x].metadata.confirmed
                && o.children_spec(x).contains(c) && o.stored(c) && o.vtx()[c].metadata.solid
                && self.vtx()[c].metadata.confirmed is None ==> {
                &&& o.vtx()[c].metadata.otrsi is Some && origin_of(o.vtx()[c].metadata.otrsi) == x
                    ==> self.vtx()[c].metadata.otrsi == Some(
                    IndexId(self.vtx()[x].metadata.confirmed->0, x),
                )
                &&& o.vtx()[c].metadata.ytrsi is Some && origin_of(o.vtx()[c].metadata.ytrsi) == x
                    ==> self.vtx()[c].metadata.ytrsi == Some(
                    IndexId(self.vtx()[x].metadata.confirmed->0, x),
                )
            }
        // nothing else changes: selection counters and validity stay, and a
        // message that is not a milestone leaves every solid vertex as it was
        &&& forall|x: InternedHash|
            #![trigger self.vtx()[x]]
            o.stored(x) ==> {
                &&& self.vtx()[x].metadata.selected == o.vtx()[x].metadata.selected
                &&& self.vtx()[x].metadata.valid == o.vtx()[x].metadata.valid
                &&& !(message.kind is Milestone) && o.vtx()[x].metadata.solid
                    ==> self.vtx()[x].metadata == o.vtx()[x].metadata
            }
        &&& self.vtx()[id].metadata.selected == 0
        &&& self.vtx()[id].metadata.valid
        // every vertex this insert made solid took its parents' keys
        &&& self.solidified_from_parents(o)
    }

    /// Stores the vertex `id` with parents `ma` and `pa` and wires it into the
    /// tangle. A milestone first confirms its past cone and refreshes the
    /// snapshot keys below it; then the new vertex's future cone is
    /// solidified.
    ///
    /// `id` must be new (neither stored nor an entry point) and must not be
    /// its own parent; a milestone's parents must already be solid.
    pub fn insert(&mut self, id: InternedHash, message: Message, ma: InternedHash, pa: InternedHash)
        requires
            old(self).wf(),
            !old(self).stored(id),
            !old(self).is_sep_spec(id),
            ma != id,
            pa != id,
            message.kind is Milestone ==> old(self).solid_spec(ma) && old(self).solid_spec(pa),
        ensures
            final(self).wf(),
            final(self).stored_new_vertex(old(self), id, message, ma, pa),
    {
        // Confirmation walks stored ancestors only, and `id` is not stored
        // yet, so it runs before the new vertex is linked in.
        let confirmation = message.kind.milestone_index();
        if let Some(m) = confirmation {
            if m > self.lmi {
                self.lmi = m;
            }
            proof {
                self.lemma_raised_lmi_keeps_wf(old(self));
            }
            let ghost s_lmi = *self;
            let confirmed = self.confirm_recent_cone(ma, pa, m);
            let ghost sc = *self;
            let ghost clist = confirmed@;
            proof {
                assert forall|x: InternedHash| #![trigger old(self).vtx()[x]]
                    old(self).reaches(ma, x) == s_lmi.reaches(ma, x) && old(self).reaches(pa, x) == s_lmi.reaches(pa, x) by {
                    old(self).lemma_reaches_same_vertices(&s_lmi, ma, x);
                    old(self).lemma_reaches_same_vertices(&s_lmi, pa, x);
                }
            }
            self.update_snapshot_indices(confirmed, m);
            proof {
                assert forall|x: InternedHash, c: InternedHash|
                    #![trigger old(self).children_spec(x).contains(c), self.vtx()[x], self.vtx()[c]]
                    clist.contains(x) && old(self).children_spec(x).contains(c) && old(self).stored(c)
                        && self.vtx()[c].metadata.confirmed is None implies self.kid_refreshed(&sc, x, c, m) by {
                    assert(self.keys_refreshed_from(&sc, x, m));
                    assert(sc.children_spec(x).contains(c));
                }
            }
        }
        let ghost s1 = *self;
        ids_remove(&mut self.tips, ma);
        ids_remove(&mut self.tips, pa);
        let children = match waiting_remove(&mut self.missing, id) {
            Some(waiting) => waiting,
            None => {
                ids_insert(&mut self.tips, id);
                ids_new()
            },
        };
        let ghost s2 = *self;
        proof {
            assert(s2.waiting() =~= s1.waiting().remove(id));
            if s1.waiting().contains_key(id) {
                assert(s2.tip_set() =~= s1.tip_set().remove(ma).remove(pa));
            } else {
                assert(s2.tip_set() =~= s1.tip_set().remove(ma).remove(pa).insert(id));
            }
        }
        self.link_parent(id, ma);
        let ghost after_ma = *self;
        self.link_parent(id, pa);
        let ghost s3 = *self;
        proof {
            assert forall|x: InternedHash| #![trigger s3.vtx()[x]]
                s2.stored(x) implies {
                    &&& s3.vtx()[x].parents == s2.vtx()[x].parents
                    &&& s3.vtx()[x].message == s2.vtx()[x].message
                    &&& s3.vtx()[x].metadata == s2.vtx()[x].metadata
                    &&& s3.children_spec(x) == if x == ma || x == pa {
                        s2.children_spec(x).insert(id)
                    } else {
                        s2.children_spec(x)
                    }
                } by {
                assert(after_ma.stored(x));
                if x == ma || x == pa {
                    assert(s2.children_spec(x).insert(id).insert(id) =~= s2.children_spec(x).insert(id));
                }
            }
            assert forall|k: InternedHash| #![trigger s3.waiting().contains_key(k)]
                s3.waiting().contains_key(k) <==> s2.waiting().contains_key(k)
                    || ((k == ma || k == pa) && !s2.stored(k) && !s2.is_sep_spec(k)) by {
                if !s2.stored(ma) && !s2.is_sep_spec(ma) {
                    assert(after_ma.waiting().dom().contains(ma));
                }
            }
            assert forall|k: InternedHash| #![trigger s3.waiting_children(k)]
                s3.waiting().contains_key(k) implies s3.waiting_children(k) == if (k == ma || k == pa)
                    && !s2.stored(k) && !s2.is_sep_spec(k) {
                    if s2.waiting().contains_key(k) {
                        s2.waiting_children(k).insert(id)
                    } else {
                        set![id]
                    }
                } else {
                    s2.waiting_children(k)
                } by {
                if (k == ma || k == pa) && !s2.stored(k) && !s2.is_sep_spec(k) {
                    if s2.waiting().contains_key(k) {
                        assert(s2.waiting_children(k).insert(id).insert(id) =~= s2.waiting_children(k).insert(id));
                    } else {
                        assert(set![id].insert(id) =~= set![id]);
                    }
                    if k == ma && k != pa {
                        assert(s3.waiting()[k] == after_ma.waiting()[k]);
                    }
                    if k == pa && k != ma && !s2.waiting().contains_key(k) {
                        assert(!after_ma.waiting().contains_key(k));
                    }
                    if k == pa && k != ma && s2.waiting().contains_key(k) {
                        assert(after_ma.waiting()[k] == s2.waiting()[k]);
                    }
                } else {
                    if !s2.stored(ma) && !s2.is_sep_spec(ma) {
                        assert(after_ma.waiting()[k] == s2.waiting()[k]);
                    }
                    if !s2.stored(pa) && !s2.is_sep_spec(pa) {
                        assert(s3.waiting()[k] == after_ma.waiting()[k]);
                    }
                }
            }
        }
        // a milestone is confirmed on arrival, and so is its own root
        let root_key = match confirmation {
            Some(m) => Some(IndexId(m, id)),
            None => None,
        };
        let vertex = Vertex {
            parents: Parents { ma, pa },
            children,
            message,
            metadata: Metadata {
                solid: false,
                confirmed: confirmation,
                otrsi: root_key,
                ytrsi: root_key,
                selected: 0,
                valid: true,
            },
        };
        vertices_insert(&mut self.vertices, id, vertex);
        proof {
            self.lemma_linked(&s1, &s2, &s3, id, ma, pa);
        }
        let ghost s4 = *self;
        self.propagate_state(id);
        proof {
            if message.kind is Milestone && self.vtx()[id].metadata.solid {
                assert(self.newly_solid_milestone(&s4, id));
            }
        }
    }

    /// What `insert` asks of its caller.
    pub open spec fn insertable(&self, id: InternedHash, message: Message, ma: InternedHash, pa: InternedHash) -> bool {
        &&& !self.stored(id)
        &&& !self.is_sep_spec(id)
        &&& ma != id
        &&& pa != id
        &&& message.kind is Milestone ==> self.solid_spec(ma) && self.solid_spec(pa)
    }

    /// Inserts like `insert` when the insert is allowed, and refuses
    /// otherwise, leaving the tangle as it was: a known or self-referencing
    /// id, or a milestone whose parents are not solid yet.
    pub fn try_insert(&mut self, id: InternedHash, message: Message, ma: InternedHash, pa: InternedHash) -> (accepted: bool)
        requires
            old(self).wf(),
        ensures
            final(self).wf(),
            accepted == old(self).insertable(id, message, ma, pa),
            accepted ==> final(self).stored_new_vertex(old(self), id, message, ma, pa),
            !accepted ==> *final(self) == *old(self),
    {
        if self.get(&id).is_some() || self.is_sep(&id) || ma == id || pa == id {
            return false;
        }
        if message.kind.is_milestone() && !(self.is_solid(&ma) && self.is_solid(&pa)) {
            return false;
        }
        self.insert(id, message, ma, pa);
        true
    }

    /// Inserts a vertex whose parents an upstream peer chose.
    pub fn insert_gossip(&mut self, id: InternedHash, message: Message, ma: InternedHash, pa: InternedHash)
        requires
            old(self).wf(),
            !old(self).stored(id),
            !old(self).is_sep_spec(id),
            ma != id,
            pa != id,
            message.kind is Milestone ==> old(self).solid_spec(ma) && old(self).solid_spec(pa),
        ensures
            final(self).wf(),
            final(self).stored_new_vertex(old(self), id, message, ma, pa),
    {
        self.insert(id, message, ma, pa)
    }

    /// Inserts a vertex issued here, on parents from tip selection.
    pub fn insert_own(&mut self, id: InternedHash, message: Message, ma: InternedHash, pa: InternedHash)
        requires
            old(self).wf(),
            !old(self).stored(id),
            !old(self).is_sep_spec(id),
            ma != id,
            pa != id,
            message.kind is Milestone ==> old(self).solid_spec(ma) && old(self).solid_spec(pa),
        ensures
            final(self).wf(),
            final(self).stored_new_vertex(old(self), id, message, ma, pa),
    {
        self.insert(id, message, ma, pa)
    }

    proof fn lemma_raised_lmi_keeps_wf(&self, o: &Tangle)
        requires
            o.wf(),
            self.vtx() == o.vtx(),
            self.missing == o.missing,
            self.seps == o.seps,
            self.tips == o.tips,
            self.lsmi == o.lsmi,
            self.lmi >= o.lmi,
        ensures
            self.wf(),
    {
        assert forall|p: InternedHash| #[trigger] self.solid_spec(p) == o.solid_spec(p) by {}
        assert(self.waiting() == o.waiting());
        assert(self.tip_set() == o.tip_set());
        assert(self.sep_index() == o.sep_index());
        assert(self.tips_inv());
        assert(self.missing_inv());
        assert(self.links_inv());
        assert forall|x: InternedHash| #[trigger] self.stored(x) implies !self.is_sep_spec(x) by {
            assert(o.stored(x));
        }
        assert(self.shape_inv());
        assert(self.solid_parents_inv());
        assert(self.confirmed_root_inv());
        assert(self.counters_inv());
        assert(self.solid_closed_inv());
    }

    /// The state right after the new vertex is stored keeps every invariant,
    /// with only the new vertex left to solidify.
    proof fn lemma_linked(&self, s1: &Tangle, s2: &Tangle, s3: &Tangle, id: InternedHash, ma: InternedHash, pa: InternedHash)
        requires
            s1.wf(),
            !s1.stored(id),
            !s1.is_sep_spec(id),
            ma != id,
            pa != id,
            s1.vtx() == s2.vtx(),
            s1.seps == s2.seps,
            s1.lmi == s2.lmi,
            s1.lsmi == s2.lsmi,
            s2.waiting() == s1.waiting().remove(id),
            s2.tip_set() == if s1.waiting().contains_key(id) {
                s1.tip_set().remove(ma).remove(pa)
            } else {
                s1.tip_set().remove(ma).remove(pa).insert(id)
            },
            // two calls of link_parent
            s3.vtx().dom() == s2.vtx().dom(),
            forall|x: InternedHash|
                #![trigger s3.vtx()[x]]
                s2.stored(x) ==> {
                    &&& s3.vtx()[x].parents == s2.vtx()[x].parents
                    &&& s3.vtx()[x].message == s2.vtx()[x].message
                    &&& s3.vtx()[x].metadata == s2.vtx()[x].metadata
                    &&& s3.children_spec(x) == if x == ma || x == pa {
                        s2.children_spec(x).insert(id)
                    } else {
                        s2.children_spec(x)
                    }
                },
            forall|k: InternedHash| #![trigger s3.waiting().contains_key(k)]
                s3.waiting().contains_key(k) <==> s2.waiting().contains_key(k)
                    || ((k == ma || k == pa) && !s2.stored(k) && !s2.is_sep_spec(k)),
            forall|k: InternedHash| #![trigger s3.waiting_children(k)]
                s3.waiting().contains_key(k) ==> s3.waiting_children(k) == if (k == ma || k == pa)
                    && !s2.stored(k) && !s2.is_sep_spec(k) {
                    if s2.waiting().contains_key(k) {
                        s2.waiting_children(k).insert(id)
                    } else {
                        set![id]
                    }
                } else {
                    s2.waiting_children(k)
                },
            s3.seps == s2.seps,
            s3.tips == s2.tips,
            s3.lmi == s2.lmi,
            s3.lsmi == s2.lsmi,
            self.vtx() == s3.vtx().insert(id, self.vtx()[id]),
            self.vtx()[id].parents == (Parents { ma, pa }),
            !self.vtx()[id].metadata.solid,
            self.vtx()[id].metadata.confirmed is Some ==> self.vtx()[id].message.kind is Milestone,
            self.vtx()[id].metadata.confirmed is Some ==> self.vtx()[id].metadata.otrsi == Some(
                IndexId(self.vtx()[id].metadata.confirmed->0, id),
            ) && self.vtx()[id].metadata.ytrsi == Some(
                IndexId(self.vtx()[id].metadata.confirmed->0, id),
            ),
            self.vtx()[id].message.kind is Milestone ==> self.vtx()[id].message.kind->Milestone_0 <= self.lmi,
            self.children_spec(id) == if s1.waiting().contains_key(id) {
                s1.waiting_children(id)
            } else {
                Set::<InternedHash>::empty()
            },
            self.missing == s3.missing,
            self.seps == s3.seps,
            self.tips == s3.tips,
            self.lmi == s3.lmi,
            self.lsmi == s3.lsmi,
        ensures
            self.core_inv(),
            self.closed_except(seq![id]),
    {
        assert(self.vtx().dom() =~= s1.vtx().dom().insert(id));
        assert forall|x: InternedHash| x != id implies #[trigger] self.stored(x) == s1.stored(x) by {}
        assert forall|x: InternedHash| #![trigger self.vtx()[x]]
            s1.stored(x) implies {
                &&& self.vtx()[x].parents == s1.vtx()[x].parents
                &&& self.vtx()[x].message == s1.vtx()[x].message
                &&& self.vtx()[x].metadata == s1.vtx()[x].metadata
                &&& self.children_spec(x) == s3.children_spec(x)
            } by {
            assert(x != id);
            assert(s2.stored(x));
            assert(s3.vtx()[x] == self.vtx()[x]);
        }
        assert forall|p: InternedHash| #[trigger] self.solid_spec(p) == s1.solid_spec(p) by {
            if p != id && s1.stored(p) {
                assert(self.vtx()[p].metadata == s1.vtx()[p].metadata);
            }
        }
        // the shape of the store
        assert forall|x: InternedHash| #[trigger] self.stored(x) implies !self.is_sep_spec(x) by {
            if x != id {
                assert(s1.stored(x));
            }
        }
        assert forall|x: InternedHash|
            #![trigger self.vtx()[x]]
            s1.stored(x) && s1.vtx()[x].parents.lists(id) implies s1.waiting().contains_key(id) by {
            assert(s1.vtx()[x].parents.lists(id));
        }
        assert(self.tips_inv()) by {
            assert forall|t: InternedHash| #![trigger self.tip_set().contains(t)]
                self.tip_set().contains(t) implies self.stored(t) && forall|x: InternedHash|
                    #![trigger self.vtx()[x]]
                    self.stored(x) ==> !self.vtx()[x].parents.lists(t) by {
                if t == id {
                    assert(!s1.waiting().contains_key(id));
                    assert forall|x: InternedHash| #![trigger self.vtx()[x]]
                        self.stored(x) implies !self.vtx()[x].parents.lists(t) by {
                        if x != id {
                            assert(s1.stored(x));
                        }
                    }
                } else {
                    assert(s1.tip_set().contains(t));
                    assert(t != ma && t != pa);
                    assert forall|x: InternedHash| #![trigger self.vtx()[x]]
                        self.stored(x) implies !self.vtx()[x].parents.lists(t) by {
                        if x != id {
                            assert(s1.stored(x));
                        }
                    }
                }
            }
        }
        assert(self.missing_inv()) by {
            assert forall|p: InternedHash| #![trigger self.waiting().contains_key(p)]
                self.waiting().contains_key(p) implies !self.stored(p) && !self.is_sep_spec(p) by {
                assert(s3.waiting().contains_key(p));
                if s2.waiting().contains_key(p) {
                    assert(p != id);
                    assert(s1.waiting().contains_key(p));
                }
            }
        }
        assert(self.links_inv()) by {
            assert forall|x: InternedHash, p: InternedHash|
                #![trigger self.vtx()[x].parents.lists(p)]
                self.stored(x) && self.vtx()[x].parents.lists(p) implies {
                    &&& self.stored(p) ==> self.children_spec(p).contains(x)
                    &&& !self.stored(p) && !self.is_sep_spec(p) ==> self.waiting().contains_key(p)
                        && self.waiting_children(p).contains(x)
                } by {
                if x == id {
                    assert(p == ma || p == pa);
                    if self.stored(p) {
                        assert(s1.stored(p));
                        assert(self.children_spec(p) == s3.children_spec(p));
                    } else if !self.is_sep_spec(p) {
                        assert(s3.waiting().contains_key(p));
                        assert(s3.waiting_children(p).contains(id));
                    }
                } else {
                    assert(s1.stored(x));
                    assert(s1.vtx()[x].parents.lists(p));
                    if p == id {
                        assert(s1.waiting_children(id).contains(x));
                    } else if self.stored(p) {
                        assert(s1.stored(p));
                        assert(s1.children_spec(p).contains(x));
                        assert(s3.children_spec(p).contains(x));
                    } else if !self.is_sep_spec(p) {
                        assert(s1.waiting().contains_key(p));
                        assert(s2.waiting().contains_key(p));
                        assert(s2.waiting()[p] == s1.waiting()[p]);
                        assert(s3.waiting().contains_key(p));
                        assert(s3.waiting_children(p).contains(x));
                    }
                }
            }
        }
        assert(self.solid_parents_inv());
        assert(self.confirmed_root_inv());
        assert(self.counters_inv());
        assert(self.closed_except(seq![id])) by {
            assert forall|x: InternedHash| #![trigger self.vtx()[x]]
                self.stored(x) && self.solid_spec(self.vtx()[x].parents.ma) && self.solid_spec(
                    self.vtx()[x].parents.pa,
                ) && !self.vtx()[x].metadata.solid implies seq![id].contains(x) by {
                if x != id {
                    assert(s1.stored(x));
                } else {
                    assert(seq![id][0] == id);
                }
            }
        }
    }

    /// Records `child` as a child of `p`: in `p`'s vertex when `p` is stored,
    /// and otherwise, unless `p` is an entry point (or persisted), in the
    /// missing-parents table.
    fn link_parent(&mut self, child: InternedHash, p: InternedHash)
        requires
            p != child,
        ensures
            final(self).vtx().dom() == old(self).vtx().dom(),
            forall|x: InternedHash|
                #![trigger final(self).vtx()[x]]
                old(self).stored(x) ==> {
                    &&& final(self).vtx()[x].parents == old(self).vtx()[x].parents
                    &&& final(self).vtx()[x].message == old(self).vtx()[x].message
                    &&& final(self).vtx()[x].metadata == old(self).vtx()[x].metadata
                    &&& final(self).children_spec(x) == if x == p {
                        old(self).children_spec(x).insert(child)
                    } else {
                        old(self).children_spec(x)
                    }
                },
            old(self).stored(p) || old(self).is_sep_spec(p) ==> final(self).waiting() == old(
                self,
            ).waiting(),
            !old(self).stored(p) && !old(self).is_sep_spec(p) ==> {
                &&& final(self).waiting().dom() == old(self).waiting().dom().insert(p)
                &&& final(self).waiting_children(p) == if old(self).waiting().contains_key(p) {
                    old(self).waiting_children(p).insert(child)
                } else {
                    set![child]
                }
                &&& forall|k: InternedHash|
                    k != p ==> #[trigger] final(self).waiting()[k] == old(self).waiting()[k]
            },
            final(self).seps == old(self).seps,
            final(self).tips == old(self).tips,
            final(self).lmi == old(self).lmi,
            final(self).lsmi == old(self).lsmi,
    {
        match vertices_remove(&mut self.vertices, p) {
            Some(mut v) => {
                ids_insert(&mut v.children, child);
                vertices_insert(&mut self.vertices, p, v);
                assert(self.vtx().dom() =~= old(self).vtx().dom());
            },
            None => {
                assert(self.vtx() =~= old(self).vtx());
                if !self.is_sep(&p) && !self.check_db(p) {
                    let mut waiting = match waiting_remove(&mut self.missing, p) {
                        Some(w) => w,
                        None => ids_new(),
                    };
                    ids_insert(&mut waiting, child);
                    waiting_insert(&mut self.missing, p, waiting);
                    assert(self.waiting().dom() =~= old(self).waiting().dom().insert(p));
                    proof {
                        if old(self).waiting().contains_key(p) {
                            assert(old(self).waiting().remove(p).insert(p, waiting)[p] == waiting);
                        }
                    }
                }
            },
        }
    }
}

} // verus!
