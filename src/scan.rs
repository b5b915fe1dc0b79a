//! A direct walk of a vertex's past cone that collects the indices of the
//! confirmed vertices it reaches: the ground truth that the incrementally
//! kept snapshot keys can be held against.
use crate::engine::Tangle;
use crate::models::{InternedHash, MilestoneIndex};
use crate::store::{indices_get, vertices_get};
use std::collections::HashSet;
use vstd::prelude::*;

verus! {

broadcast use vstd::std_specs::hash::group_hash_axioms;

impl Tangle {
    /// `path` runs from `from` towards the past, one parent at a time,
    /// through stored vertices that are not confirmed (its last vertex may be
    /// anything).
    pub open spec fn cone_path(&self, from: InternedHash, path: Seq<InternedHash>) -> bool {
        &&& path.len() >= 1
        &&& path[0] == from
        &&& forall|i: int|
            #![trigger path[i + 1]]
            0 <= i < path.len() - 1 ==> {
                &&& self.stored(path[i])
                &&& self.vtx()[path[i]].metadata.confirmed is None
                &&& self.vtx()[path[i]].parents.lists(path[i + 1])
            }
    }

    /// `to` lies in the past cone of `from`, reached without passing a
    /// confirmed vertex.
    pub open spec fn reaches(&self, from: InternedHash, to: InternedHash) -> bool {
        exists|path: Seq<InternedHash>| #[trigger] self.cone_path(from, path) && path.last() == to
    }

    /// The index at which `x` counts as confirmed: a stored vertex's
    /// confirmation, or the index of a solid entry point.
    pub open spec fn root_index(&self, x: InternedHash) -> Option<MilestoneIndex> {
        if self.stored(x) {
            self.vtx()[x].metadata.confirmed
        } else {
            self.sep_index().get(x)
        }
    }

    /// The confirmation indices of the confirmed vertices and solid entry
    /// points that `from` reaches.
    pub open spec fn root_indices(&self, from: InternedHash) -> Set<MilestoneIndex> {
        Set::new(
            |m: MilestoneIndex|
                exists|x: InternedHash| #[trigger]
                    self.reaches(from, x) && self.root_index(x) == Some(m),
        )
    }

    /// The smallest and the largest confirmation index among the confirmed
    /// vertices and solid entry points in the past cone of `id` (the walk
    /// stops at each of them); `None` when it reaches none.
    pub fn scan_confirmed_root_transactions(&self, id: &InternedHash) -> (r: Option<(MilestoneIndex, MilestoneIndex)>)
        requires
            self.vtx().dom().finite(),
        ensures
            r is None <==> self.root_indices(*id).is_empty(),
            match r {
                Some((lo, hi)) => {
                    &&& self.root_indices(*id).contains(lo)
                    &&& self.root_indices(*id).contains(hi)
                    &&& forall|m: MilestoneIndex| #[trigger]
                        self.root_indices(*id).contains(m) ==> lo <= m <= hi
                },
                None => true,
            },
    {
        let mut stack: Vec<InternedHash> = Vec::new();
        stack.push(*id);
        let mut visited: HashSet<InternedHash> = HashSet::new();
        let mut found: Option<(MilestoneIndex, MilestoneIndex)> = None;
        proof {
            let p = seq![*id];
            assert(self.cone_path(*id, p));
            assert(stack@[0] == *id);
        }
        loop
            invariant
                self.vtx().dom().finite(),
                forall|k: int| 0 <= k < stack@.len() ==> self.reaches(*id, #[trigger] stack@[k]),
                forall|x: InternedHash| #[trigger] visited@.contains(x) ==> self.reaches(*id, x),
                visited@.contains(*id) || stack@.contains(*id),
                forall|x: InternedHash|
                    #![trigger visited@.contains(x), self.vtx()[x]]
                    visited@.contains(x) && self.stored(x) && self.vtx()[x].metadata.confirmed is None
                        ==> (visited@.contains(self.vtx()[x].parents.ma) || stack@.contains(
                        self.vtx()[x].parents.ma,
                    )) && (visited@.contains(self.vtx()[x].parents.pa) || stack@.contains(
                        self.vtx()[x].parents.pa,
                    )),
                match found {
                    Some((lo, hi)) => {
                        &&& self.root_indices(*id).contains(lo)
                        &&& self.root_indices(*id).contains(hi)
                        &&& forall|x: InternedHash|
                            #![trigger visited@.contains(x)]
                            visited@.contains(x) && self.root_index(x) is Some ==> lo
                                <= self.root_index(x)->0 <= hi
                    },
                    None => forall|x: InternedHash|
                        #![trigger visited@.contains(x)]
                        visited@.contains(x) ==> self.root_index(x) is None,
                },
            ensures
                stack@.len() == 0,
            decreases self.vtx().dom().difference(visited@).len(), stack.len(),
        {
            let ghost pending = stack@;
            let x = match stack.pop() {
                Some(x) => x,
                None => break,
            };
            proof {
                assert(pending =~= stack@.push(x));
                assert(self.reaches(*id, pending[pending.len() - 1]));
                assert forall|p: InternedHash| pending.contains(p) && p != x implies
                    #[trigger] stack@.contains(p) by {
                    let j = choose|j: int| 0 <= j < pending.len() && pending[j] == p;
                    assert(stack@[j] == p);
                }
                assert forall|k: int| 0 <= k < stack@.len() implies self.reaches(*id, #[trigger] stack@[k]) by {
                    assert(pending[k] == stack@[k]);
                }
            }
            if !visited.contains(&x) {
                let ghost seen = visited@;
                visited.insert(x);
                if let Some((parents, _, meta)) = vertices_get(&self.vertices, x) {
                    match meta.confirmed {
                        Some(m) => {
                            proof {
                                assert(self.root_indices(*id).contains(m));
                            }
                            found = match found {
                                Some((lo, hi)) => Some((if m < lo { m } else { lo }, if m > hi { m } else { hi })),
                                None => Some((m, m)),
                            };
                        },
                        None => {
                            stack.push(parents.ma);
                            stack.push(parents.pa);
                            proof {
                                let path = choose|path: Seq<InternedHash>| #[trigger] self.cone_path(*id, path) && path.last() == x;
                                self.lemma_extend_path(*id, path, parents.ma);
                                self.lemma_extend_path(*id, path, parents.pa);
                                assert(stack@[stack@.len() - 2] == parents.ma);
                                assert(stack@[stack@.len() - 1] == parents.pa);
                                assert forall|k: int| 0 <= k < stack@.len() implies self.reaches(*id, #[trigger] stack@[k]) by {
                                    if k < stack@.len() - 2 {
                                        assert(stack@[k] == pending[k]);
                                    }
                                }
                                assert forall|p: InternedHash| pending.contains(p) && p != x implies
                                    #[trigger] stack@.contains(p) by {
                                    let j = choose|j: int| 0 <= j < pending.len() && pending[j] == p;
                                    assert(stack@[j] == p);
                                }
                            }
                        },
                    }
                    proof {
                        assert(self.vtx().dom().difference(visited@) =~= self.vtx().dom().difference(seen).remove(x));
                        vstd::set::axiom_set_difference_finite(self.vtx().dom(), seen);
                        assert(self.vtx().dom().difference(seen).contains(x));
                    }
                } else {
                    // a solid entry point counts as confirmed at its index
                    if let Some(m) = indices_get(&self.seps, x) {
                        proof {
                            assert(self.root_indices(*id).contains(m));
                        }
                        found = match found {
                            Some((lo, hi)) => Some((if m < lo { m } else { lo }, if m > hi { m } else { hi })),
                            None => Some((m, m)),
                        };
                    }
                    proof {
                        assert(self.vtx().dom().difference(visited@) =~= self.vtx().dom().difference(seen));
                    }
                }
            }
        }
        proof {
            self.lemma_scan_complete(*id, visited@, found);
        }
        found
    }

    /// Reachability depends on the vertices alone.
    pub proof fn lemma_reaches_same_vertices(&self, o: &Tangle, from: InternedHash, x: InternedHash)
        requires
            self.vtx() == o.vtx(),
        ensures
            self.reaches(from, x) == o.reaches(from, x),
    {
        if self.reaches(from, x) {
            let path = choose|path: Seq<InternedHash>| #[trigger] self.cone_path(from, path) && path.last() == x;
            assert forall|i: int| 0 <= i < path.len() - 1 implies o.stored(#[trigger] path[i])
                && o.vtx()[path[i]].metadata.confirmed is None && o.vtx()[path[i]].parents.lists(path[i + 1]) by {
                assert(self.vtx()[path[i]].parents.lists(path[i + 1]));
            }
            assert(o.cone_path(from, path)) by {
                assert forall|i: int| #![trigger path[i + 1]] 0 <= i < path.len() - 1 implies {
                    &&& o.stored(path[i])
                    &&& o.vtx()[path[i]].metadata.confirmed is None
                    &&& o.vtx()[path[i]].parents.lists(path[i + 1])
                } by {
                    assert(self.vtx()[path[i]].parents.lists(path[i + 1]));
                    assert(self.stored(path[i]));
                }
            }
        }
        if o.reaches(from, x) {
            let path = choose|path: Seq<InternedHash>| #[trigger] o.cone_path(from, path) && path.last() == x;
            assert forall|i: int| 0 <= i < path.len() - 1 implies self.stored(#[trigger] path[i])
                && self.vtx()[path[i]].metadata.confirmed is None && self.vtx()[path[i]].parents.lists(path[i + 1]) by {
                assert(o.vtx()[path[i]].parents.lists(path[i + 1]));
            }
            assert(self.cone_path(from, path)) by {
                assert forall|i: int| #![trigger path[i + 1]] 0 <= i < path.len() - 1 implies {
                    &&& self.stored(path[i])
                    &&& self.vtx()[path[i]].metadata.confirmed is None
                    &&& self.vtx()[path[i]].parents.lists(path[i + 1])
                } by {
                    assert(o.vtx()[path[i]].parents.lists(path[i + 1]));
                    assert(o.stored(path[i]));
                }
            }
        }
    }

    pub(crate) proof fn lemma_extend_path(&self, from: InternedHash, path: Seq<InternedHash>, p: InternedHash)
        requires
            self.cone_path(from, path),
            self.stored(path.last()),
            self.vtx()[path.last()].metadata.confirmed is None,
            self.vtx()[path.last()].parents.lists(p),
        ensures
            self.reaches(from, p),
    {
        let q = path.push(p);
        assert forall|i: int| 0 <= i < q.len() - 1 implies self.stored(#[trigger] q[i])
            && self.vtx()[q[i]].metadata.confirmed is None && self.vtx()[q[i]].parents.lists(q[i + 1]) by {
            if i < path.len() - 1 {
                assert(q[i] == path[i] && q[i + 1] == path[i + 1]);
            } else {
                assert(q[i] == path.last() && q[i + 1] == p);
            }
        }
        assert(q[0] == path[0]);
        assert(self.cone_path(from, q)) by {
            assert forall|i: int| #![trigger q[i + 1]] 0 <= i < q.len() - 1 implies {
                &&& self.stored(q[i])
                &&& self.vtx()[q[i]].metadata.confirmed is None
                &&& self.vtx()[q[i]].parents.lists(q[i + 1])
            } by {
                assert(self.stored(q[i]));
            }
        }
        assert(q.last() == p);
    }

    proof fn lemma_scan_complete(
        &self,
        id: InternedHash,
        visited: Set<InternedHash>,
        found: Option<(MilestoneIndex, MilestoneIndex)>,
    )
        requires
            visited.contains(id),
            forall|x: InternedHash|
                #![trigger visited.contains(x), self.vtx()[x]]
                visited.contains(x) && self.stored(x) && self.vtx()[x].metadata.confirmed is None
                    ==> visited.contains(self.vtx()[x].parents.ma) && visited.contains(
                    self.vtx()[x].parents.pa,
                ),
            match found {
                Some((lo, hi)) => {
                    &&& self.root_indices(id).contains(lo)
                    &&& self.root_indices(id).contains(hi)
                    &&& forall|x: InternedHash|
                        #![trigger visited.contains(x)]
                        visited.contains(x) && self.root_index(x) is Some ==> lo
                            <= self.root_index(x)->0 <= hi
                },
                None => forall|x: InternedHash|
                    #![trigger visited.contains(x)]
                    visited.contains(x) ==> self.root_index(x) is None,
            },
        ensures
            found is None <==> self.root_indices(id).is_empty(),
            match found {
                Some((lo, hi)) => {
                    &&& self.root_indices(id).contains(lo)
                    &&& self.root_indices(id).contains(hi)
                    &&& forall|m: MilestoneIndex| #[trigger]
                        self.root_indices(id).contains(m) ==> lo <= m <= hi
                },
                None => true,
            },
    {
        assert forall|x: InternedHash| #[trigger] self.reaches(id, x) implies visited.contains(x) by {
            let path = choose|path: Seq<InternedHash>| #[trigger] self.cone_path(id, path) && path.last() == x;
            self.lemma_path_visited(id, visited, path, path.len() - 1);
        }
        assert forall|m: MilestoneIndex| #[trigger] self.root_indices(id).contains(m) implies
            match found {
                Some((lo, hi)) => lo <= m <= hi,
                None => false,
            } by {
            let x = choose|x: InternedHash| #[trigger]
                self.reaches(id, x) && self.root_index(x) == Some(m);
            assert(visited.contains(x));
        }
        if let Some((lo, _)) = found {
            assert(self.root_indices(id).contains(lo));
        }
    }

    proof fn lemma_path_visited(&self, id: InternedHash, visited: Set<InternedHash>, path: Seq<InternedHash>, n: int)
        requires
            visited.contains(id),
            forall|x: InternedHash|
                #![trigger visited.contains(x), self.vtx()[x]]
                visited.contains(x) && self.stored(x) && self.vtx()[x].metadata.confirmed is None
                    ==> visited.contains(self.vtx()[x].parents.ma) && visited.contains(
                    self.vtx()[x].parents.pa,
                ),
            self.cone_path(id, path),
            0 <= n < path.len(),
        ensures
            visited.contains(path[n]),
        decreases n,
    {
        if n > 0 {
            self.lemma_path_visited(id, visited, path, n - 1);
            let i = n - 1;
            assert(self.vtx()[path[i]].parents.lists(path[i + 1]));
        }
    }
}

} // verus!
