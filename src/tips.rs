//! Tip selection: scoring tips by how far their snapshot indices lag behind
//! the latest solid milestone, and drawing one at random, weighted by score.
use crate::engine::Tangle;
use crate::models::{index_of, InternedHash, Metadata, MilestoneIndex, Score, Vertex};
use crate::store::{draw_between, ids_to_vec, vertices_get};
use vstd::prelude::*;

verus! {

/// A tip whose youngest root snapshot index lags the latest solid milestone
/// by more than this is lazy.
pub const YTRSI_DELTA: u64 = 2;

/// A parent whose oldest root snapshot index lags by more than this counts
/// against the tip.
pub const OTRSI_DELTA: u64 = 7;

/// A tip whose oldest root snapshot index lags by more than this is lazy.
pub const BELOW_MAX_DEPTH: u64 = 15;

/// How many times tip selection may hand out the same tip.
pub const MAX_SELECTED: u8 = 2;

/// The sum of the weights of the first `n` candidates.
pub open spec fn weight_prefix(c: Seq<(InternedHash, u64)>, n: int) -> int
    decreases n,
{
    if n <= 0 {
        0
    } else {
        weight_prefix(c, n - 1) + c[n - 1].1
    }
}

/// Walks the candidates in order, taking each one's weight off `r`, and
/// returns the first at which `r` is used up: the first candidate whose
/// running total of weights reaches `r`. `None` when the total stays below `r`.
pub fn pick_weighted(candidates: &Vec<(InternedHash, u64)>, r: u128) -> (picked: Option<InternedHash>)
    ensures
        picked is None <==> forall|k: int|
            0 <= k < candidates@.len() ==> r > #[trigger] weight_prefix(candidates@, k + 1),
        picked is Some ==> exists|k: int|
            0 <= k < candidates@.len() && candidates@[k].0 == picked->0 && r <= weight_prefix(
                candidates@,
                k + 1,
            ) && forall|j: int| 0 <= j < k ==> r > #[trigger] weight_prefix(candidates@, j + 1),
{
    let mut left: u128 = r;
    let mut i: usize = 0;
    while i < candidates.len()
        invariant
            0 <= i <= candidates@.len(),
            left == r - weight_prefix(candidates@, i as int),
            forall|j: int| 0 <= j < i ==> r > #[trigger] weight_prefix(candidates@, j + 1),
        decreases candidates.len() - i,
    {
        let (id, w) = candidates[i];
        assert(weight_prefix(candidates@, i + 1) == weight_prefix(candidates@, i as int) + w);
        if left <= w as u128 {
            assert(r <= weight_prefix(candidates@, i as int + 1));
            return Some(id);
        }
        left = left - w as u128;
        i = i + 1;
    }
    None
}

impl Tangle {
    /// `lsmi` lags `index` by more than `delta`.
    pub open spec fn lags(&self, index: MilestoneIndex, delta: u64) -> bool {
        self.lsmi - index > delta
    }

    /// A stored parent counts against a tip when its oldest index lags by
    /// more than `OTRSI_DELTA`.
    pub open spec fn parent_lags(&self, p: InternedHash) -> bool {
        self.stored(p) && match self.vtx()[p].metadata.otrsi {
            Some(k) => self.lags(k.0, OTRSI_DELTA),
            None => false,
        }
    }

    /// The score of the stored vertex `id`, given its own oldest and youngest
    /// root snapshot indices.
    pub open spec fn score_spec(&self, id: InternedHash, otrsi: MilestoneIndex, ytrsi: MilestoneIndex) -> Score {
        if self.lags(ytrsi, YTRSI_DELTA) || self.lags(otrsi, BELOW_MAX_DEPTH) {
            Score::Lazy
        } else {
            let against = (if self.parent_lags(self.vtx()[id].parents.ma) { 1int } else { 0 })
                + (if self.parent_lags(self.vtx()[id].parents.pa) { 1int } else { 0 });
            if against == 2 {
                Score::Lazy
            } else if against == 1 {
                Score::SemiLazy
            } else {
                Score::NonLazy
            }
        }
    }

    /// Whether tip selection may hand out `t`: it is stored, solid, valid,
    /// handed out at most `MAX_SELECTED` times so far, and not lazy.
    pub open spec fn eligible(&self, t: InternedHash) -> bool {
        &&& self.stored(t)
        &&& self.vtx()[t].metadata.solid
        &&& self.vtx()[t].metadata.valid
        &&& self.vtx()[t].metadata.selected <= MAX_SELECTED
        &&& self.vtx()[t].metadata.otrsi is Some
        &&& self.vtx()[t].metadata.ytrsi is Some
        &&& self.score_spec(
            t,
            index_of(self.vtx()[t].metadata.otrsi),
            index_of(self.vtx()[t].metadata.ytrsi),
        ) != Score::Lazy
    }

    pub open spec fn has_eligible_tip(&self) -> bool {
        exists|t: InternedHash| #[trigger] self.tip_set().contains(t) && self.eligible(t)
    }

    /// The vertex `v` after tip selection handed it out once more.
    pub open spec fn handed_out(v: Vertex) -> Vertex {
        Vertex {
            parents: v.parents,
            children: v.children,
            message: v.message,
            metadata: Metadata {
                solid: v.metadata.solid,
                confirmed: v.metadata.confirmed,
                otrsi: v.metadata.otrsi,
                ytrsi: v.metadata.ytrsi,
                selected: (v.metadata.selected + 1) as u8,
                valid: v.metadata.valid,
            },
        }
    }

    /// Draws one tip at random among the eligible ones, each weighted by its
    /// score (1 for semi-lazy, 2 for non-lazy), and counts the selection on
    /// it. `None` when no tip is eligible.
    pub fn select_tip(&mut self) -> (r: Option<InternedHash>)
        requires
            old(self).wf(),
        ensures
            final(self).wf(),
            r is None <==> !old(self).has_eligible_tip(),
            r is None ==> final(self).vtx() == old(self).vtx(),
            r is Some ==> {
                &&& old(self).tip_set().contains(r->0)
                &&& old(self).eligible(r->0)
                &&& final(self).vtx() == old(self).vtx().insert(
                    r->0,
                    Tangle::handed_out(old(self).vtx()[r->0]),
                )
            },
            final(self).missing == old(self).missing,
            final(self).seps == old(self).seps,
            final(self).tips == old(self).tips,
            final(self).lmi == old(self).lmi,
            final(self).lsmi == old(self).lsmi,
    {
        let tips = ids_to_vec(&self.tips);
        let mut candidates: Vec<(InternedHash, u64)> = Vec::new();
        let mut score_sum: u128 = 0;
        let mut i: usize = 0;
        while i < tips.len()
            invariant
                0 <= i <= tips@.len(),
                tips@.to_set() == self.tip_set(),
                score_sum == weight_prefix(candidates@, candidates@.len() as int),
                score_sum <= 2 * i,
                candidates@.len() > 0 ==> score_sum >= 1,
                forall|k: int|
                    #![trigger candidates@[k]]
                    0 <= k < candidates@.len() ==> self.eligible(candidates@[k].0)
                        && self.tip_set().contains(candidates@[k].0),
                forall|j: int| 0 <= j < i && self.eligible(#[trigger] tips@[j]) ==> candidates@.len() > 0,
            decreases tips.len() - i,
        {
            let t = tips[i];
            proof {
                assert(tips@.to_set().contains(t));
            }
            if let Some((_, _, meta)) = vertices_get(&self.vertices, t) {
                if meta.solid && meta.valid && meta.selected <= MAX_SELECTED {
                    if let (Some(o), Some(y)) = (meta.otrsi, meta.ytrsi) {
                        let w = self.get_tip_score(&t, o.0, y.0).weight();
                        if w > 0 {
                            let ghost before = candidates@;
                            candidates.push((t, w));
                            score_sum = score_sum + w as u128;
                            proof {
                                assert(candidates@.drop_last() == before);
                                assert(weight_prefix(candidates@, candidates@.len() as int - 1)
                                    == weight_prefix(before, before.len() as int)) by {
                                    Tangle::lemma_prefix_of_push(before, (t, w), before.len() as int);
                                }
                            }
                        }
                    }
                }
            }
            i = i + 1;
        }
        if candidates.len() == 0 {
            proof {
                assert forall|t: InternedHash| #[trigger] self.tip_set().contains(t) implies !self.eligible(t) by {
                    assert(tips@.to_set().contains(t));
                    let j = choose|j: int| 0 <= j < tips@.len() && tips@[j] == t;
                    assert(self.eligible(tips@[j]) ==> candidates@.len() > 0);
                }
            }
            return None;
        }
        let r = draw_between(1, score_sum);
        match pick_weighted(&candidates, r) {
            Some(t) => {
                let ghost k = choose|k: int| 0 <= k < candidates@.len() && candidates@[k].0 == t
                    && r <= weight_prefix(candidates@, k + 1)
                    && forall|j: int| 0 <= j < k ==> r > #[trigger] weight_prefix(candidates@, j + 1);
                proof {
                    assert(self.eligible(candidates@[k].0));
                }
                if let Some((_, _, meta)) = vertices_get(&self.vertices, t) {
                    let ghost before = *self;
                    let bumped = Metadata { selected: meta.selected + 1, ..meta };
                    let _ = self.set_metadata(t, bumped);
                    proof {
                        self.lemma_after_count(&before, t, bumped);
                        assert(self.vtx() =~= before.vtx().insert(t, Tangle::handed_out(before.vtx()[t])));
                    }
                }
                Some(t)
            },
            None => {
                proof {
                    let n = candidates@.len() as int;
                    assert(r > weight_prefix(candidates@, (n - 1) + 1));
                }
                None
            },
        }
    }

    /// Exactly one tip is eligible, and tip selection has already handed it
    /// out `MAX_SELECTED` times: one more draw uses it up.
    pub open spec fn sole_tip_at_limit(&self) -> bool {
        exists|t: InternedHash|
            #![trigger self.tip_set().contains(t)]
            self.tip_set().contains(t) && self.eligible(t) && self.vtx()[t].metadata.selected
                == MAX_SELECTED && forall|u: InternedHash|
                #![trigger self.tip_set().contains(u)]
                self.tip_set().contains(u) && self.eligible(u) ==> u == t
    }

    /// Draws two tips by two independent draws; the same tip may come back
    /// twice. Fails when either draw fails.
    pub fn select_two_tips(&mut self) -> (r: Option<(InternedHash, InternedHash)>)
        requires
            old(self).wf(),
        ensures
            final(self).wf(),
            r is None <==> !old(self).has_eligible_tip() || old(self).sole_tip_at_limit(),
            match r {
                Some((a, b)) => {
                    &&& old(self).tip_set().contains(a) && old(self).eligible(a)
                    &&& old(self).tip_set().contains(b) && old(self).eligible(b)
                    // `b` was still eligible once `a` had been handed out
                    &&& (b != a || old(self).vtx()[a].metadata.selected < MAX_SELECTED)
                    // `a` and then `b` were handed out
                    &&& final(self).vtx() == old(self).vtx().insert(
                        a,
                        Tangle::handed_out(old(self).vtx()[a]),
                    ).insert(
                        b,
                        Tangle::handed_out(
                            old(self).vtx().insert(a, Tangle::handed_out(old(self).vtx()[a]))[b],
                        ),
                    )
                },
                None => true,
            },
            final(self).missing == old(self).missing,
            final(self).seps == old(self).seps,
            final(self).tips == old(self).tips,
            final(self).lmi == old(self).lmi,
            final(self).lsmi == old(self).lsmi,
    {
        let ghost o = *self;
        if let Some(tip1) = self.select_tip() {
            let ghost mid = *self;
            proof {
                mid.lemma_eligible_after_hand_out(&o, tip1);
            }
            if let Some(tip2) = self.select_tip() {
                proof {
                    assert(mid.eligible(tip2));
                }
                return Some((tip1, tip2));
            }
            proof {
                assert(o.vtx()[tip1].metadata.selected == MAX_SELECTED) by {
                    if o.vtx()[tip1].metadata.selected < MAX_SELECTED {
                        assert(mid.tip_set().contains(tip1) && mid.eligible(tip1));
                    }
                }
                assert forall|u: InternedHash| #![trigger o.tip_set().contains(u)]
                    o.tip_set().contains(u) && o.eligible(u) implies u == tip1 by {
                    if u != tip1 {
                        assert(mid.tip_set().contains(u) && mid.eligible(u));
                    }
                }
                assert(o.sole_tip_at_limit());
            }
        } else {
            proof {
                assert(!o.sole_tip_at_limit());
            }
        }
        proof {
            if o.has_eligible_tip() && !o.sole_tip_at_limit() {
                assert(false);
            }
        }
        None
    }

    proof fn lemma_eligible_after_hand_out(&self, o: &Tangle, t: InternedHash)
        requires
            o.stored(t),
            o.vtx()[t].metadata.selected <= MAX_SELECTED,
            self.vtx() == o.vtx().insert(t, Tangle::handed_out(o.vtx()[t])),
            self.tips == o.tips,
            self.lsmi == o.lsmi,
        ensures
            forall|u: InternedHash| #[trigger] self.eligible(u) == (o.eligible(u) && (u != t
                || o.vtx()[t].metadata.selected < MAX_SELECTED)),
            self.tip_set() == o.tip_set(),
    {
        assert forall|p: InternedHash| #[trigger] self.parent_lags(p) == o.parent_lags(p) by {
            if p == t {
                assert(self.vtx()[p].metadata.otrsi == o.vtx()[p].metadata.otrsi);
            }
        }
        assert forall|u: InternedHash| #[trigger] self.eligible(u) == (o.eligible(u) && (u != t
            || o.vtx()[t].metadata.selected < MAX_SELECTED)) by {
            if self.stored(u) {
                assert(self.vtx()[u].parents == o.vtx()[u].parents);
                assert(self.vtx()[u].metadata.otrsi == o.vtx()[u].metadata.otrsi);
                assert(self.vtx()[u].metadata.ytrsi == o.vtx()[u].metadata.ytrsi);
                assert(self.score_spec(u, index_of(o.vtx()[u].metadata.otrsi), index_of(o.vtx()[u].metadata.ytrsi))
                    == o.score_spec(u, index_of(o.vtx()[u].metadata.otrsi), index_of(o.vtx()[u].metadata.ytrsi)));
            }
        }
    }

    proof fn lemma_prefix_of_push(c: Seq<(InternedHash, u64)>, x: (InternedHash, u64), n: int)
        requires
            0 <= n <= c.len(),
        ensures
            weight_prefix(c.push(x), n) == weight_prefix(c, n),
        decreases n,
    {
        if n > 0 {
            Tangle::lemma_prefix_of_push(c, x, n - 1);
        }
    }

    proof fn lemma_after_count(&self, before: &Tangle, t: InternedHash, new_meta: Metadata)
        requires
            before.wf(),
            before.stored(t),
            new_meta == (Metadata {
                selected: new_meta.selected,
                ..before.vtx()[t].metadata
            }),
            self.vtx() == before.vtx().insert(
                t,
                Vertex {
                    parents: before.vtx()[t].parents,
                    children: before.vtx()[t].children,
                    message: before.vtx()[t].message,
                    metadata: new_meta,
                },
            ),
            self.missing == before.missing,
            self.seps == before.seps,
            self.tips == before.tips,
            self.lmi == before.lmi,
            self.lsmi == before.lsmi,
        ensures
            self.wf(),
    {
        assert(self.vtx().dom() =~= before.vtx().dom());
        assert forall|x: InternedHash| x != t implies #[trigger] self.vtx()[x] == before.vtx()[x] by {}
        assert forall|p: InternedHash| #[trigger] self.solid_spec(p) == before.solid_spec(p) by {}
        assert(self.same_shape(before));
        self.lemma_same_shape_keeps_shape_inv(before);
        assert(self.solid_parents_inv());
        assert(self.confirmed_root_inv());
        assert(self.counters_inv());
        assert(self.solid_closed_inv());
    }

    fn lags_exec(&self, index: MilestoneIndex, delta: u64) -> (r: bool)
        ensures
            r == self.lags(index, delta),
    {
        self.lsmi > index && self.lsmi - index > delta
    }

    fn parent_lags_exec(&self, p: InternedHash) -> (r: bool)
        ensures
            r == self.parent_lags(p),
    {
        match vertices_get(&self.vertices, p) {
            Some((_, _, meta)) => match meta.otrsi {
                Some(k) => self.lags_exec(k.0, OTRSI_DELTA),
                None => false,
            },
            None => false,
        }
    }

    /// Scores the stored vertex `id` against the latest solid milestone index.
    pub fn get_tip_score(&self, id: &InternedHash, otrsi: MilestoneIndex, ytrsi: MilestoneIndex) -> (s: Score)
        requires
            self.stored(*id),
        ensures
            s == self.score_spec(*id, otrsi, ytrsi),
    {
        if self.lags_exec(ytrsi, YTRSI_DELTA) {
            return Score::Lazy;
        }
        if self.lags_exec(otrsi, BELOW_MAX_DEPTH) {
            return Score::Lazy;
        }
        let parents = match vertices_get(&self.vertices, *id) {
            Some((parents, _, _)) => parents,
            None => {
                return Score::Lazy;
            },
        };
        let mut parent_otrsi_check: u8 = 2;
        if self.parent_lags_exec(parents.ma) {
            parent_otrsi_check = parent_otrsi_check - 1;
        }
        if self.parent_lags_exec(parents.pa) {
            parent_otrsi_check = parent_otrsi_check - 1;
        }
        if parent_otrsi_check == 0 {
            Score::Lazy
        } else if parent_otrsi_check == 1 {
            Score::SemiLazy
        } else {
            Score::NonLazy
        }
    }
}

} // verus!
