//! The vertex store: the `Tangle` type, its model and invariants, and the
//! operations that read it.
use crate::models::{IndexId, InternedHash, Message, Metadata, MilestoneIndex, Vertex};
use crate::store::{
    id_set, ids_len, ids_new, ids_to_vec, index_entries, indices_get, indices_insert, indices_new,
    vertex_entries, vertices_get, vertices_insert, vertices_new, vertices_remove, waiting_entries, waiting_new,
};
use dashmap::{DashMap, DashSet};
use vstd::prelude::*;

verus! {

/// The engine: every stored vertex, the parents that were referenced before
/// they arrived, the solid entry points, the tip set, and the latest
/// (solid) milestone indices.
pub struct Tangle {
    pub vertices: DashMap<InternedHash, Vertex>,
    /// For each referenced parent not stored yet, the children waiting for it.
    pub missing: DashMap<InternedHash, DashSet<InternedHash>>,
    /// Solid entry points and the milestone index each one stands for.
    pub seps: DashMap<InternedHash, MilestoneIndex>,
    /// Stored vertices that no stored vertex lists as a parent.
    pub tips: DashSet<InternedHash>,
    /// Latest milestone index.
    pub lmi: MilestoneIndex,
    /// Latest solid milestone index.
    pub lsmi: MilestoneIndex,
}

/// A fresh, empty engine.
pub fn init() -> (t: Tangle)
    ensures
        t.wf(),
        t.is_empty(),
{
    Tangle::new()
}

impl Tangle {
    pub open spec fn vtx(&self) -> Map<InternedHash, Vertex> {
        vertex_entries(self.vertices)
    }

    pub open spec fn waiting(&self) -> Map<InternedHash, DashSet<InternedHash>> {
        waiting_entries(self.missing)
    }

    pub open spec fn sep_index(&self) -> Map<InternedHash, MilestoneIndex> {
        index_entries(self.seps)
    }

    pub open spec fn tip_set(&self) -> Set<InternedHash> {
        id_set(self.tips)
    }

    pub open spec fn stored(&self, id: InternedHash) -> bool {
        self.vtx().contains_key(id)
    }

    pub open spec fn is_sep_spec(&self, id: InternedHash) -> bool {
        self.sep_index().contains_key(id)
    }

    /// A stored vertex is solid by its flag; an id that is not stored is solid
    /// when it is a solid entry point.
    pub open spec fn solid_spec(&self, id: InternedHash) -> bool {
        if self.stored(id) {
            self.vtx()[id].metadata.solid
        } else {
            self.is_sep_spec(id)
        }
    }

    pub open spec fn children_spec(&self, id: InternedHash) -> Set<InternedHash> {
        id_set(self.vtx()[id].children)
    }

    pub open spec fn waiting_children(&self, id: InternedHash) -> Set<InternedHash> {
        id_set(self.waiting()[id])
    }

    /// The oldest root snapshot index of `id`: from its vertex, or from the
    /// solid entry point table.
    pub open spec fn otrsi_spec(&self, id: InternedHash) -> Option<MilestoneIndex> {
        if self.stored(id) {
            match self.vtx()[id].metadata.otrsi {
                Some(k) => Some(k.0),
                None => None,
            }
        } else {
            self.sep_index().get(id)
        }
    }

    /// The youngest root snapshot index of `id`, drawn as `otrsi_spec` is.
    pub open spec fn ytrsi_spec(&self, id: InternedHash) -> Option<MilestoneIndex> {
        if self.stored(id) {
            match self.vtx()[id].metadata.ytrsi {
                Some(k) => Some(k.0),
                None => None,
            }
        } else {
            self.sep_index().get(id)
        }
    }

    pub open spec fn is_empty(&self) -> bool {
        &&& self.vtx().dom() == Set::<InternedHash>::empty()
        &&& self.waiting().dom() == Set::<InternedHash>::empty()
        &&& self.sep_index().dom() == Set::<InternedHash>::empty()
        &&& self.tip_set() == Set::<InternedHash>::empty()
        &&& self.lmi == 0
        &&& self.lsmi == 0
    }

    /// A solid vertex has solid parents (stored or entry points) and both
    /// root snapshot indices.
    pub open spec fn solid_parents_inv(&self) -> bool {
        forall|id: InternedHash|
            #![trigger self.vtx()[id]]
            self.stored(id) && self.vtx()[id].metadata.solid ==> {
                &&& self.solid_spec(self.vtx()[id].parents.ma)
                &&& self.solid_spec(self.vtx()[id].parents.pa)
                &&& self.vtx()[id].metadata.otrsi is Some
                &&& self.vtx()[id].metadata.ytrsi is Some
            }
    }

    /// A confirmed vertex is a root transaction: both of its snapshot keys
    /// are the confirming index and its own id. A confirmed vertex other than
    /// a milestone was solid when it was confirmed (a milestone is confirmed
    /// on arrival and solidified right after).
    pub open spec fn confirmed_root_inv(&self) -> bool {
        forall|id: InternedHash|
            #![trigger self.vtx()[id]]
            self.stored(id) && self.vtx()[id].metadata.confirmed is Some ==> {
                &&& self.vtx()[id].metadata.otrsi == Some(
                    IndexId(self.vtx()[id].metadata.confirmed->0, id),
                )
                &&& self.vtx()[id].metadata.ytrsi == Some(
                    IndexId(self.vtx()[id].metadata.confirmed->0, id),
                )
                &&& !(self.vtx()[id].message.kind is Milestone) ==> self.vtx()[id].metadata.solid
            }
    }

    /// Every tip is stored, and no stored vertex lists it as a parent.
    pub open spec fn tips_inv(&self) -> bool {
        forall|t: InternedHash|
            #![trigger self.tip_set().contains(t)]
            self.tip_set().contains(t) ==> self.stored(t) && forall|x: InternedHash|
                #![trigger self.vtx()[x]]
                self.stored(x) ==> !self.vtx()[x].parents.lists(t)
    }

    /// An id waits in the missing-parents table only while it is neither
    /// stored nor a solid entry point.
    pub open spec fn missing_inv(&self) -> bool {
        forall|p: InternedHash|
            #![trigger self.waiting().contains_key(p)]
            self.waiting().contains_key(p) ==> !self.stored(p) && !self.is_sep_spec(p)
    }

    /// The latest solid milestone index is at most the latest milestone
    /// index, which bounds every stored milestone.
    pub open spec fn counters_inv(&self) -> bool {
        &&& self.lsmi <= self.lmi
        &&& forall|id: InternedHash|
            #![trigger self.vtx()[id]]
            self.stored(id) && self.vtx()[id].message.kind is Milestone
                ==> self.vtx()[id].message.kind->Milestone_0 <= self.lmi
    }

    /// A parent that is stored knows the child as one of its children; one
    /// that is neither stored nor an entry point holds the child in the
    /// missing-parents table.
    pub open spec fn links_inv(&self) -> bool {
        forall|x: InternedHash, p: InternedHash|
            #![trigger self.vtx()[x].parents.lists(p)]
            self.stored(x) && self.vtx()[x].parents.lists(p) ==> {
                &&& self.stored(p) ==> self.children_spec(p).contains(x)
                &&& !self.stored(p) && !self.is_sep_spec(p) ==> self.waiting().contains_key(p)
                    && self.waiting_children(p).contains(x)
            }
    }

    /// Solidification is complete: a stored vertex whose parents are both
    /// solid is solid.
    pub open spec fn solid_closed_inv(&self) -> bool {
        forall|x: InternedHash|
            #![trigger self.vtx()[x]]
            self.stored(x) && self.solid_spec(self.vtx()[x].parents.ma) && self.solid_spec(
                self.vtx()[x].parents.pa,
            ) ==> self.vtx()[x].metadata.solid
    }

    /// The invariants that depend only on the shape of the store (ids,
    /// parents, children, tips, the missing-parents table and the entry
    /// points), not on any vertex's metadata.
    pub open spec fn shape_inv(&self) -> bool {
        &&& self.vtx().dom().finite()
        &&& forall|id: InternedHash| #[trigger] self.stored(id) ==> !self.is_sep_spec(id)
        &&& self.tips_inv()
        &&& self.missing_inv()
        &&& self.links_inv()
    }

    /// Every invariant but the completeness of solidification.
    pub open spec fn core_inv(&self) -> bool {
        &&& self.shape_inv()
        &&& self.solid_parents_inv()
        &&& self.confirmed_root_inv()
        &&& self.counters_inv()
    }

    pub open spec fn wf(&self) -> bool {
        &&& self.core_inv()
        &&& self.solid_closed_inv()
    }

    /// `self` and `o` differ at most in the metadata of their vertices and in
    /// the latest solid milestone index.
    pub open spec fn same_shape(&self, o: &Tangle) -> bool {
        &&& self.vtx().dom() == o.vtx().dom()
        &&& forall|x: InternedHash|
            #![trigger self.vtx()[x]]
            o.stored(x) ==> {
                &&& self.vtx()[x].parents == o.vtx()[x].parents
                &&& self.vtx()[x].children == o.vtx()[x].children
                &&& self.vtx()[x].message == o.vtx()[x].message
            }
        &&& self.waiting() == o.waiting()
        &&& self.sep_index() == o.sep_index()
        &&& self.tip_set() == o.tip_set()
        &&& self.lmi == o.lmi
    }

    pub proof fn lemma_same_shape_keeps_shape_inv(&self, o: &Tangle)
        requires
            o.shape_inv(),
            self.same_shape(o),
        ensures
            self.shape_inv(),
    {
        assert forall|x: InternedHash| #[trigger] self.stored(x) implies !self.is_sep_spec(x) by {
            assert(o.stored(x));
        }
        assert forall|t: InternedHash| #![trigger self.tip_set().contains(t)]
            self.tip_set().contains(t) implies self.stored(t) && forall|x: InternedHash|
                #![trigger self.vtx()[x]]
                self.stored(x) ==> !self.vtx()[x].parents.lists(t) by {
            assert(o.tip_set().contains(t));
            assert forall|x: InternedHash| #![trigger self.vtx()[x]]
                self.stored(x) implies !self.vtx()[x].parents.lists(t) by {
                assert(o.stored(x));
                assert(o.vtx()[x].parents == self.vtx()[x].parents);
            }
        }
        assert forall|x: InternedHash, p: InternedHash|
            #![trigger self.vtx()[x].parents.lists(p)]
            self.stored(x) && self.vtx()[x].parents.lists(p) implies {
                &&& self.stored(p) ==> self.children_spec(p).contains(x)
                &&& !self.stored(p) && !self.is_sep_spec(p) ==> self.waiting().contains_key(p)
                    && self.waiting_children(p).contains(x)
            } by {
            assert(o.stored(x));
            assert(o.vtx()[x].parents.lists(p));
            if self.stored(p) {
                assert(o.stored(p));
                assert(o.vtx()[p].children == self.vtx()[p].children);
            }
        }
    }

    pub proof fn lemma_same_model_keeps_wf(&self, o: &Tangle)
        requires
            o.wf(),
            self.vtx() == o.vtx(),
            self.waiting() == o.waiting(),
            self.sep_index() == o.sep_index(),
            self.tip_set() == o.tip_set(),
            self.lmi == o.lmi,
            self.lsmi == o.lsmi,
        ensures
            self.wf(),
    {
        assert forall|p: InternedHash| #[trigger] self.solid_spec(p) == o.solid_spec(p) by {}
        assert(self.same_shape(o));
        self.lemma_same_shape_keeps_shape_inv(o);
        assert(self.solid_parents_inv());
        assert(self.confirmed_root_inv());
        assert(self.counters_inv());
        assert(self.solid_closed_inv());
    }

    /// Replaces the metadata of the stored vertex `id` and hands back its
    /// children.
    pub(crate) fn set_metadata(&mut self, id: InternedHash, meta: Metadata) -> (kids: Vec<InternedHash>)
        requires
            old(self).stored(id),
        ensures
            final(self).vtx() == old(self).vtx().insert(
                id,
                Vertex {
                    parents: old(self).vtx()[id].parents,
                    children: old(self).vtx()[id].children,
                    message: old(self).vtx()[id].message,
                    metadata: meta,
                },
            ),
            final(self).missing == old(self).missing,
            final(self).seps == old(self).seps,
            final(self).tips == old(self).tips,
            final(self).lmi == old(self).lmi,
            final(self).lsmi == old(self).lsmi,
            kids@.to_set() == old(self).children_spec(id),
            kids@.no_duplicates(),
    {
        match vertices_remove(&mut self.vertices, id) {
            Some(mut v) => {
                v.metadata = meta;
                let kids = ids_to_vec(&v.children);
                vertices_insert(&mut self.vertices, id, v);
                assert(self.vtx() =~= old(self).vtx().insert(id, v));
                kids
            },
            None => {
                assert(false);
                Vec::new()
            },
        }
    }

    /// The children of the stored vertex `id`; the store is left as it was.
    pub(crate) fn children_of(&mut self, id: InternedHash) -> (kids: Vec<InternedHash>)
        requires
            old(self).stored(id),
        ensures
            final(self).vtx() == old(self).vtx(),
            final(self).missing == old(self).missing,
            final(self).seps == old(self).seps,
            final(self).tips == old(self).tips,
            final(self).lmi == old(self).lmi,
            final(self).lsmi == old(self).lsmi,
            kids@.to_set() == old(self).children_spec(id),
            kids@.no_duplicates(),
    {
        match vertices_remove(&mut self.vertices, id) {
            Some(v) => {
                let kids = ids_to_vec(&v.children);
                vertices_insert(&mut self.vertices, id, v);
                assert(self.vtx() =~= old(self).vtx());
                kids
            },
            None => {
                assert(false);
                Vec::new()
            },
        }
    }

    /// A fresh, empty engine.
    pub fn new() -> (t: Tangle)
        ensures
            t.wf(),
            t.is_empty(),
    {
        let t = Tangle {
            vertices: vertices_new(),
            missing: waiting_new(),
            seps: indices_new(),
            tips: ids_new(),
            lmi: 0,
            lsmi: 0,
        };
        assert(t.vtx().dom().finite());
        t
    }

    /// Declares `id` a solid entry point standing for milestone `index`.
    /// Nothing stored may refer to `id` yet.
    pub fn add_solid_entrypoint(&mut self, id: InternedHash, index: MilestoneIndex)
        requires
            old(self).wf(),
            !old(self).stored(id),
            !old(self).waiting().contains_key(id),
        ensures
            final(self).wf(),
            final(self).sep_index() == old(self).sep_index().insert(id, index),
            final(self).vtx() == old(self).vtx(),
            final(self).waiting() == old(self).waiting(),
            final(self).tip_set() == old(self).tip_set(),
            final(self).lmi == old(self).lmi,
            final(self).lsmi == old(self).lsmi,
    {
        indices_insert(&mut self.seps, id, index);
        proof {
            let o = *old(self);
            assert forall|x: InternedHash|
                #![trigger self.vtx()[x]]
                self.stored(x) && !o.is_sep_spec(id) implies !o.vtx()[x].parents.lists(id) by {
                if o.vtx()[x].parents.lists(id) {
                    assert(o.waiting().contains_key(id));
                }
            }
            assert forall|p: InternedHash| p != id || o.is_sep_spec(id) implies
                #[trigger] self.solid_spec(p) == o.solid_spec(p) by {}
            assert(self.vtx() == o.vtx());
            assert(self.tip_set() == o.tip_set());
            assert forall|x: InternedHash| #[trigger] self.stored(x) implies !self.is_sep_spec(x) by {
                assert(o.stored(x));
            }
            assert(self.solid_parents_inv());
            assert(self.confirmed_root_inv());
            assert(self.tips_inv()) by {
                assert(o.tips_inv());
            }
            assert(self.missing_inv());
            assert(self.counters_inv());
            assert(self.links_inv());
            assert(self.solid_closed_inv());
        }
    }

    /// Reports whether `id` is persisted outside the live store; nothing is.
    pub(crate) fn check_db(&self, id: InternedHash) -> (r: bool)
        ensures
            !r,
    {
        false
    }

    pub fn is_sep(&self, id: &InternedHash) -> (r: bool)
        ensures
            r == self.is_sep_spec(*id),
    {
        indices_get(&self.seps, *id).is_some()
    }

    pub fn is_solid(&self, id: &InternedHash) -> (r: bool)
        ensures
            r == self.solid_spec(*id),
    {
        match vertices_get(&self.vertices, *id) {
            Some((_, _, meta)) => meta.solid,
            None => self.is_sep(id) || self.check_db(*id),
        }
    }

    pub fn is_milestone(&self, id: &InternedHash) -> (r: bool)
        ensures
            r == (self.stored(*id) && self.vtx()[*id].message.kind is Milestone),
    {
        match vertices_get(&self.vertices, *id) {
            Some((_, message, _)) => message.kind.is_milestone(),
            None => false,
        }
    }

    pub fn get_otrsi(&self, id: &InternedHash) -> (r: Option<MilestoneIndex>)
        ensures
            r == self.otrsi_spec(*id),
    {
        match vertices_get(&self.vertices, *id) {
            Some((_, _, meta)) => match meta.otrsi {
                Some(k) => Some(k.0),
                None => None,
            },
            None => indices_get(&self.seps, *id),
        }
    }

    pub fn get_ytrsi(&self, id: &InternedHash) -> (r: Option<MilestoneIndex>)
        ensures
            r == self.ytrsi_spec(*id),
    {
        match vertices_get(&self.vertices, *id) {
            Some((_, _, meta)) => match meta.ytrsi {
                Some(k) => Some(k.0),
                None => None,
            },
            None => indices_get(&self.seps, *id),
        }
    }

    /// Whether the stored vertex `id` is confirmed; `None` when it is not stored.
    pub fn confirmed(&self, id: &InternedHash) -> (r: Option<bool>)
        ensures
            r == (if self.stored(*id) {
                Some(self.vtx()[*id].metadata.confirmed is Some)
            } else {
                None
            }),
    {
        match vertices_get(&self.vertices, *id) {
            Some((_, _, meta)) => Some(meta.confirmed.is_some()),
            None => None,
        }
    }

    /// The message stored under `id`.
    pub fn get(&self, id: &InternedHash) -> (r: Option<Message>)
        ensures
            r is Some <==> self.stored(*id),
            r is Some ==> r->0.kind == self.vtx()[*id].message.kind,
    {
        match vertices_get(&self.vertices, *id) {
            Some((_, message, _)) => Some(message),
            None => None,
        }
    }

    pub fn num_tips(&self) -> (r: usize)
        ensures
            r == self.tip_set().len(),
    {
        ids_len(&self.tips)
    }
}

} // verus!
