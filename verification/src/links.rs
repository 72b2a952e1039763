//! The edge entity and its column encoding.
//!
//! The store has no native sum type, so a tagged node reference is persisted
//! as three mutually exclusive nullable columns, one per node kind; both the
//! source and the destination side of an edge get their own triple. The
//! encode step is total (it always sets exactly one column); the decode step
//! is partial (it fails when all three columns are null) and disambiguates a
//! corrupt row by the fixed precedence note, then bookmark, then list.

use vstd::prelude::*;

use crate::nodes::{Bookmark, List, Note};

verus! {

/// A tagged reference to a node: the kind together with the node's id.
#[derive(Clone, Copy, Debug, PartialEq, Eq, Structural)]
pub enum NodeReference {
    Bookmark(u64),
    Note(u64),
    List(u64),
}

/// The failures the link store reports.
#[derive(Clone, Copy, Debug, PartialEq, Eq, Structural)]
pub enum LinkError {
    /// An insertion referenced a node id that does not exist in the stated
    /// kind's table; nothing was persisted.
    ReferentialViolation,
    /// Resolution met a row none of whose three destination joins produced a
    /// node: the exclusivity invariant is broken in the store.
    InvariantBroken,
}

/// A stored edge row. `id` and `created_at` are generated once at insertion
/// and never change; the six nullable columns hold the projections of the two
/// node references, exactly one column set per side.
#[derive(Clone, Copy, Debug, PartialEq, Eq)]
pub struct Link {
    pub id: u64,
    pub created_at: i64,
    pub user_id: u64,
    pub src_bookmark_id: Option<u64>,
    pub src_note_id: Option<u64>,
    pub src_list_id: Option<u64>,
    pub dest_bookmark_id: Option<u64>,
    pub dest_note_id: Option<u64>,
    pub dest_list_id: Option<u64>,
}

/// The destination of a resolved edge, materialized as a node of its actual
/// kind rather than a bare reference.
#[verifier::ext_equal]
#[derive(Clone, Debug, PartialEq, Eq)]
pub enum LinkDestination {
    Bookmark(Bookmark),
    Note(Note),
    List(List),
}

/// A resolved edge: the link's own identity and ownership, with the
/// destination node fully materialized.
#[verifier::ext_equal]
#[derive(Clone, Debug, PartialEq, Eq)]
pub struct LinkWithContent {
    pub id: u64,
    pub created_at: i64,
    pub user_id: u64,
    pub dest: LinkDestination,
}

/// Exactly one of the three per-kind columns of one side is set — the
/// exclusivity invariant, never zero and never more than one.
pub open spec fn exactly_one_set(
    bookmark_id: Option<u64>,
    note_id: Option<u64>,
    list_id: Option<u64>,
) -> bool {
    ||| (bookmark_id is Some && note_id is None && list_id is None)
    ||| (bookmark_id is None && note_id is Some && list_id is None)
    ||| (bookmark_id is None && note_id is None && list_id is Some)
}

/// The projection of a tagged reference onto the column triple
/// (bookmark, note, list): the id lands in the column matching the kind and
/// the other two columns stay null.
pub open spec fn encoded_columns(r: NodeReference) -> (Option<u64>, Option<u64>, Option<u64>) {
    match r {
        NodeReference::Bookmark(id) => (Some(id), None, None),
        NodeReference::Note(id) => (None, Some(id), None),
        NodeReference::List(id) => (None, None, Some(id)),
    }
}

/// The partial inverse of the projection: recover the tagged reference from a
/// column triple. On a corrupt row with more than one column set, the fixed
/// precedence note, then bookmark, then list decides; when all three columns
/// are null there is no reference to recover.
pub open spec fn decoded_reference(
    bookmark_id: Option<u64>,
    note_id: Option<u64>,
    list_id: Option<u64>,
) -> Option<NodeReference> {
    if note_id is Some {
        Some(NodeReference::Note(note_id->Some_0))
    } else if bookmark_id is Some {
        Some(NodeReference::Bookmark(bookmark_id->Some_0))
    } else if list_id is Some {
        Some(NodeReference::List(list_id->Some_0))
    } else {
        None
    }
}

impl Link {
    /// The source side's column triple (bookmark, note, list).
    pub open spec fn src_columns(self) -> (Option<u64>, Option<u64>, Option<u64>) {
        (self.src_bookmark_id, self.src_note_id, self.src_list_id)
    }

    /// The destination side's column triple (bookmark, note, list).
    pub open spec fn dest_columns(self) -> (Option<u64>, Option<u64>, Option<u64>) {
        (self.dest_bookmark_id, self.dest_note_id, self.dest_list_id)
    }

    /// The source side satisfies the exclusivity invariant.
    pub open spec fn src_exclusive(self) -> bool {
        exactly_one_set(self.src_bookmark_id, self.src_note_id, self.src_list_id)
    }

    /// The destination side satisfies the exclusivity invariant.
    pub open spec fn dest_exclusive(self) -> bool {
        exactly_one_set(self.dest_bookmark_id, self.dest_note_id, self.dest_list_id)
    }

    /// Both sides satisfy the exclusivity invariant.
    pub open spec fn exclusive(self) -> bool {
        self.src_exclusive() && self.dest_exclusive()
    }

    /// The tagged reference the source columns decode to.
    pub open spec fn src_ref(self) -> Option<NodeReference> {
        decoded_reference(self.src_bookmark_id, self.src_note_id, self.src_list_id)
    }

    /// The tagged reference the destination columns decode to.
    pub open spec fn dest_ref(self) -> Option<NodeReference> {
        decoded_reference(self.dest_bookmark_id, self.dest_note_id, self.dest_list_id)
    }
}

/// Projects a tagged reference into the column triple (bookmark, note, list).
/// Total: every reference yields exactly one set column, so a row built from
/// this projection satisfies the exclusivity invariant by construction.
pub fn encode_reference(r: NodeReference) -> (t: (Option<u64>, Option<u64>, Option<u64>))
    ensures
        t == encoded_columns(r),
        exactly_one_set(t.0, t.1, t.2),
        decoded_reference(t.0, t.1, t.2) == Some(r),
{
    match r {
        NodeReference::Bookmark(id) => (Some(id), None, None),
        NodeReference::Note(id) => (None, Some(id), None),
        NodeReference::List(id) => (None, None, Some(id)),
    }
}

/// Recovers the tagged reference from a column triple; `None` exactly when
/// all three columns are null (a broken row).
pub fn decode_reference(
    bookmark_id: Option<u64>,
    note_id: Option<u64>,
    list_id: Option<u64>,
) -> (r: Option<NodeReference>)
    ensures
        r == decoded_reference(bookmark_id, note_id, list_id),
{
    match note_id {
        Some(id) => Some(NodeReference::Note(id)),
        None => match bookmark_id {
            Some(id) => Some(NodeReference::Bookmark(id)),
            None => match list_id {
                Some(id) => Some(NodeReference::List(id)),
                None => None,
            },
        },
    }
}

/// Law: the encode step is total and the decode step inverts it — every
/// reference projects to a triple with exactly one column set, and decoding
/// that triple recovers the original reference.
pub proof fn lemma_encode_decode_round_trip(r: NodeReference)
    ensures
        exactly_one_set(encoded_columns(r).0, encoded_columns(r).1, encoded_columns(r).2),
        decoded_reference(encoded_columns(r).0, encoded_columns(r).1, encoded_columns(r).2)
            == Some(r),
{
}

} // verus!
