//! Identifiers, message kinds and per-vertex records.
use dashmap::DashSet;
use vstd::prelude::*;

verus! {

/// A message id, interned to an integer.
pub type InternedHash = u64;

/// A milestone index; index 0 is the genesis.
pub type MilestoneIndex = u64;

/// What a message carries besides its kind; opaque to the engine.
pub type Payload = ();

/// A root snapshot index together with the id of the parent it came from.
///
/// Keys are ordered by index first and then by id.
#[derive(Clone, Copy, Debug, PartialEq, Eq, Structural, PartialOrd, Ord)]
pub struct IndexId(pub MilestoneIndex, pub InternedHash);

/// `a <= b` in the order of index, then id.
pub open spec fn key_le(a: IndexId, b: IndexId) -> bool {
    a.0 < b.0 || (a.0 == b.0 && a.1 <= b.1)
}

pub open spec fn key_min(a: IndexId, b: IndexId) -> IndexId {
    if key_le(a, b) { a } else { b }
}

pub open spec fn key_max(a: IndexId, b: IndexId) -> IndexId {
    if key_le(a, b) { b } else { a }
}

/// The index a key carries; 0 for an absent key.
pub open spec fn index_of(k: Option<IndexId>) -> MilestoneIndex {
    match k {
        Some(k) => k.0,
        None => 0,
    }
}

/// The id a key came from; 0 for an absent key.
pub open spec fn origin_of(k: Option<IndexId>) -> InternedHash {
    match k {
        Some(k) => k.1,
        None => 0,
    }
}

impl IndexId {
    /// The smaller of two keys.
    pub fn min_key(a: IndexId, b: IndexId) -> (r: IndexId)
        ensures
            r == key_min(a, b),
    {
        if a.0 < b.0 || (a.0 == b.0 && a.1 <= b.1) { a } else { b }
    }

    /// The larger of two keys.
    pub fn max_key(a: IndexId, b: IndexId) -> (r: IndexId)
        ensures
            r == key_max(a, b),
    {
        if a.0 < b.0 || (a.0 == b.0 && a.1 <= b.1) { b } else { a }
    }
}

/// The two parents of a vertex: trunk (`ma`) and branch (`pa`).
#[derive(Clone, Copy, Debug, PartialEq, Eq, Structural)]
pub struct Parents {
    pub ma: InternedHash,
    pub pa: InternedHash,
}

impl Parents {
    pub open spec fn lists(self, p: InternedHash) -> bool {
        self.ma == p || self.pa == p
    }
}

#[derive(Clone, Copy, Debug, PartialEq, Eq, Structural)]
pub enum MessageKind {
    Data,
    Value,
    Checkpoint,
    Milestone(MilestoneIndex),
}

impl MessageKind {
    pub fn is_milestone(&self) -> (r: bool)
        ensures
            r == self is Milestone,
    {
        if let MessageKind::Milestone(_) = *self {
            true
        } else {
            false
        }
    }

    /// The index a milestone carries; `None` for every other kind.
    pub fn milestone_index(&self) -> (r: Option<MilestoneIndex>)
        ensures
            r == self.index_spec(),
    {
        match *self {
            MessageKind::Milestone(m) => Some(m),
            _ => None,
        }
    }

    pub open spec fn index_spec(self) -> Option<MilestoneIndex> {
        match self {
            MessageKind::Milestone(m) => Some(m),
            _ => None,
        }
    }
}

impl Default for MessageKind {
    fn default() -> (r: Self)
        ensures
            r == MessageKind::Data,
    {
        MessageKind::Data
    }
}

#[derive(Clone, Copy, Debug)]
pub struct Message {
    pub payload: Payload,
    pub kind: MessageKind,
}

impl Message {
    pub fn new(payload: Payload, kind: MessageKind) -> (r: Self)
        ensures
            r.kind == kind,
    {
        Message { payload, kind }
    }
}

impl Default for Message {
    fn default() -> (r: Self)
        ensures
            r.kind == MessageKind::Data,
    {
        Message { payload: (), kind: MessageKind::Data }
    }
}

/// The mutable state of a vertex.
#[derive(Clone, Copy, Debug, PartialEq, Eq, Structural)]
pub struct Metadata {
    pub solid: bool,
    /// The index of the milestone that confirmed the vertex.
    pub confirmed: Option<MilestoneIndex>,
    /// Oldest root snapshot index; absent only while the vertex is not solid.
    pub otrsi: Option<IndexId>,
    /// Youngest root snapshot index; absent only while the vertex is not solid.
    pub ytrsi: Option<IndexId>,
    /// How many times tip selection returned the vertex.
    pub selected: u8,
    /// Whether the vertex may still be handed out by tip selection.
    pub valid: bool,
}

impl Default for Metadata {
    fn default() -> (r: Self)
        ensures
            r == (Metadata {
                solid: false,
                confirmed: None,
                otrsi: None,
                ytrsi: None,
                selected: 0,
                valid: true,
            }),
    {
        Metadata { solid: false, confirmed: None, otrsi: None, ytrsi: None, selected: 0, valid: true }
    }
}

pub struct Vertex {
    pub parents: Parents,
    pub children: DashSet<InternedHash>,
    pub message: Message,
    pub metadata: Metadata,
}

/// How attractive a tip is to tip selection.
#[derive(Clone, Copy, Debug, PartialEq, Eq, Structural)]
pub enum Score {
    Lazy,
    SemiLazy,
    NonLazy,
}

impl Score {
    pub open spec fn weight_spec(self) -> u64 {
        match self {
            Score::Lazy => 0,
            Score::SemiLazy => 1,
            Score::NonLazy => 2,
        }
    }

    /// The weight of the score in the random draw: 0, 1 or 2.
    pub fn weight(&self) -> (r: u64)
        ensures
            r == self.weight_spec(),
    {
        match *self {
            Score::Lazy => 0,
            Score::SemiLazy => 1,
            Score::NonLazy => 2,
        }
    }
}

} // verus!
