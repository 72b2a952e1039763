//! The link store: one edge table beside the three node tables, with the two
//! operations the core exposes — inserting an edge and resolving a list's
//! outgoing edges into fully typed destination nodes.
//!
//! The store models the relational state a caller's transactional scope
//! addresses: the node catalog's tables, the links table, the id and
//! timestamp generator the store applies at insertion, and a query counter
//! that instruments how many operations each call issues against the store.

use vstd::prelude::*;

use crate::links::{
    encode_reference, encoded_columns, Link, LinkDestination, LinkError, LinkWithContent,
    NodeReference,
};
use crate::nodes::{
    bookmark_ids_unique, find_bookmark, find_bookmark_index, find_list, find_list_index,
    find_note, find_note_index, list_ids_unique, note_ids_unique, Bookmark, List, Note,
};

verus! {

/// The relational state: three node tables, the edge table, the generator for
/// fresh edge ids, the creation timestamp the store stamps on new rows, and a
/// counter of queries issued (instrumentation only — no operation reads it).
pub struct LinkStore {
    pub bookmarks: Vec<Bookmark>,
    pub notes: Vec<Note>,
    pub lists: Vec<List>,
    pub links: Vec<Link>,
    pub next_link_id: u64,
    pub now: i64,
    pub query_count: u64,
}

/// The links whose source-side list column matches the queried list, in table
/// order — the rows the resolution query selects.
pub open spec fn outgoing(links: Seq<Link>, list_id: u64) -> Seq<Link>
    decreases links.len(),
{
    if links.len() == 0 {
        Seq::empty()
    } else {
        let prefix = outgoing(links.drop_last(), list_id);
        if links.last().src_list_id == Some(list_id) {
            prefix.push(links.last())
        } else {
            prefix
        }
    }
}

/// The predicate `list_by_list` ensures of a successful result: `results`
/// resolves the outgoing edges `out` row by row, in order.
pub open spec fn resolution_matches(s: LinkStore, out: Seq<Link>, results: Seq<
    LinkWithContent,
>) -> bool {
    &&& results.len() == out.len()
    &&& forall|i: int| 0 <= i < results.len() ==> s.resolved_matches(out[i], #[trigger] results[i])
}

impl LinkStore {
    /// Referential integrity of one edge row: each non-null column references
    /// an existing row in the corresponding node table.
    pub open spec fn link_referential_ok(self, l: Link) -> bool {
        &&& (l.src_bookmark_id matches Some(id) ==> find_bookmark(self.bookmarks@, id) is Some)
        &&& (l.src_note_id matches Some(id) ==> find_note(self.notes@, id) is Some)
        &&& (l.src_list_id matches Some(id) ==> find_list(self.lists@, id) is Some)
        &&& (l.dest_bookmark_id matches Some(id) ==> find_bookmark(self.bookmarks@, id) is Some)
        &&& (l.dest_note_id matches Some(id) ==> find_note(self.notes@, id) is Some)
        &&& (l.dest_list_id matches Some(id) ==> find_list(self.lists@, id) is Some)
    }

    /// Whether the referenced node exists in the table of the stated kind.
    pub open spec fn node_exists(self, r: NodeReference) -> bool {
        match r {
            NodeReference::Bookmark(id) => find_bookmark(self.bookmarks@, id) is Some,
            NodeReference::Note(id) => find_note(self.notes@, id) is Some,
            NodeReference::List(id) => find_list(self.lists@, id) is Some,
        }
    }

    /// Well-formedness of the whole store: node ids unique per table; edge
    /// ids strictly increasing in table order and below the generator; every
    /// stored edge exclusive on both sides and referentially intact.
    pub open spec fn wf(self) -> bool {
        &&& bookmark_ids_unique(self.bookmarks@)
        &&& note_ids_unique(self.notes@)
        &&& list_ids_unique(self.lists@)
        &&& (forall|i: int, j: int|
            0 <= i < j < self.links@.len() ==> self.links@[i].id < self.links@[j].id)
        &&& (forall|i: int| 0 <= i < self.links@.len() ==> self.links@[i].id < self.next_link_id)
        &&& (forall|i: int| 0 <= i < self.links@.len() ==> self.links@[i].exclusive())
        &&& (forall|i: int|
            0 <= i < self.links@.len() ==> self.link_referential_ok(self.links@[i]))
    }

    /// The note the row's destination joins against: present exactly when the
    /// note column is set and a note with that id exists.
    pub open spec fn joined_note(self, l: Link) -> Option<Note> {
        match l.dest_note_id {
            Some(id) => find_note(self.notes@, id),
            None => None,
        }
    }

    /// The bookmark the row's destination joins against.
    pub open spec fn joined_bookmark(self, l: Link) -> Option<Bookmark> {
        match l.dest_bookmark_id {
            Some(id) => find_bookmark(self.bookmarks@, id),
            None => None,
        }
    }

    /// The list the row's destination joins against.
    pub open spec fn joined_list(self, l: Link) -> Option<List> {
        match l.dest_list_id {
            Some(id) => find_list(self.lists@, id),
            None => None,
        }
    }

    /// At least one of the three destination joins produced a node, so the
    /// row decodes; false signals a broken exclusivity invariant.
    pub open spec fn link_resolves(self, l: Link) -> bool {
        ||| self.joined_note(l) is Some
        ||| self.joined_bookmark(l) is Some
        ||| self.joined_list(l) is Some
    }

    /// The destination the row decodes to, by the fixed precedence note, then
    /// bookmark, then list. Under the exclusivity invariant at most one join
    /// contributes, so the precedence never decides; it exists purely as a
    /// deterministic fallback on corrupt rows.
    pub open spec fn resolved_dest(self, l: Link) -> LinkDestination
        recommends
            self.link_resolves(l),
    {
        if self.joined_note(l) is Some {
            LinkDestination::Note(self.joined_note(l)->Some_0)
        } else if self.joined_bookmark(l) is Some {
            LinkDestination::Bookmark(self.joined_bookmark(l)->Some_0)
        } else {
            LinkDestination::List(self.joined_list(l)->Some_0)
        }
    }

    /// One fully resolved result row: the edge's own fields carried over and
    /// the destination node materialized.
    pub open spec fn resolved_matches(self, l: Link, row: LinkWithContent) -> bool {
        &&& row.id == l.id
        &&& row.created_at == l.created_at
        &&& row.user_id == l.user_id
        &&& self.link_resolves(l)
        &&& row.dest == self.resolved_dest(l)
    }

    /// An empty store: no nodes, no edges, generator and clock at zero.
    pub fn new() -> (s: LinkStore)
        ensures
            s.wf(),
            s.bookmarks@ == Seq::<Bookmark>::empty(),
            s.notes@ == Seq::<Note>::empty(),
            s.lists@ == Seq::<List>::empty(),
            s.links@ == Seq::<Link>::empty(),
            s.next_link_id == 0,
            s.now == 0,
            s.query_count == 0,
    {
        LinkStore {
            bookmarks: Vec::new(),
            notes: Vec::new(),
            lists: Vec::new(),
            links: Vec::new(),
            next_link_id: 0,
            now: 0,
            query_count: 0,
        }
    }

    /// The existence check the store's per-kind foreign keys perform on one
    /// referenced node.
    pub fn contains_node(&self, r: NodeReference) -> (b: bool)
        ensures
            b == self.node_exists(r),
    {
        match r {
            NodeReference::Bookmark(id) => find_bookmark_index(&self.bookmarks, id).is_some(),
            NodeReference::Note(id) => find_note_index(&self.notes, id).is_some(),
            NodeReference::List(id) => find_list_index(&self.lists, id).is_some(),
        }
    }

    /// The three left joins and the decode step for one edge row: `None`
    /// exactly when no join matched — the internal-consistency failure a
    /// correctly maintained store never produces.
    fn resolve_destination(&self, link: &Link) -> (r: Option<LinkDestination>)
        ensures
            r is Some <==> self.link_resolves(*link),
            (r matches Some(d) ==> d == self.resolved_dest(*link)),
    {
        if let Some(id) = link.dest_note_id {
            if let Some(j) = find_note_index(&self.notes, id) {
                let n = &self.notes[j];
                return Some(
                    LinkDestination::Note(
                        Note {
                            id: n.id,
                            created_at: n.created_at,
                            user_id: n.user_id,
                            content: n.content.clone(),
                        },
                    ),
                );
            }
        }
        if let Some(id) = link.dest_bookmark_id {
            if let Some(j) = find_bookmark_index(&self.bookmarks, id) {
                let b = &self.bookmarks[j];
                return Some(
                    LinkDestination::Bookmark(
                        Bookmark {
                            id: b.id,
                            created_at: b.created_at,
                            user_id: b.user_id,
                            url: b.url.clone(),
                            title: b.title.clone(),
                        },
                    ),
                );
            }
        }
        if let Some(id) = link.dest_list_id {
            if let Some(j) = find_list_index(&self.lists, id) {
                let l = &self.lists[j];
                return Some(
                    LinkDestination::List(
                        List {
                            id: l.id,
                            created_at: l.created_at,
                            user_id: l.user_id,
                            title: l.title.clone(),
                        },
                    ),
                );
            }
        }
        None
    }
}

/// Inserts one directed edge within the caller's scope. The store checks
/// referential integrity of both endpoints, projects the two tagged
/// references onto the six columns, and persists a single new row with a
/// fresh id and the store's current timestamp. On a referential failure
/// nothing is persisted. Exactly one query is issued either way.
pub fn insert(db: &mut LinkStore, user_id: u64, src: NodeReference, dest: NodeReference) -> (r:
    Result<Link, LinkError>)
    requires
        old(db).next_link_id < u64::MAX,
        old(db).query_count < u64::MAX,
    ensures
        final(db).bookmarks == old(db).bookmarks,
        final(db).notes == old(db).notes,
        final(db).lists == old(db).lists,
        final(db).now == old(db).now,
        final(db).query_count == old(db).query_count + 1,
        (match r {
            Ok(link) => {
                &&& old(db).node_exists(src)
                &&& old(db).node_exists(dest)
                &&& link.id == old(db).next_link_id
                &&& link.created_at == old(db).now
                &&& link.user_id == user_id
                &&& link.src_columns() == encoded_columns(src)
                &&& link.dest_columns() == encoded_columns(dest)
                &&& link.exclusive()
                &&& link.src_ref() == Some(src)
                &&& link.dest_ref() == Some(dest)
                &&& final(db).links@ == old(db).links@.push(link)
                &&& final(db).next_link_id == old(db).next_link_id + 1
            },
            Err(e) => {
                &&& e == LinkError::ReferentialViolation
                &&& !(old(db).node_exists(src) && old(db).node_exists(dest))
                &&& final(db).links == old(db).links
                &&& final(db).next_link_id == old(db).next_link_id
            },
        }),
        old(db).wf() ==> final(db).wf(),
{
    db.query_count = db.query_count + 1;
    let src_ok = db.contains_node(src);
    let dest_ok = db.contains_node(dest);
    if !src_ok || !dest_ok {
        return Err(LinkError::ReferentialViolation);
    }
    let (src_bookmark_id, src_note_id, src_list_id) = encode_reference(src);
    let (dest_bookmark_id, dest_note_id, dest_list_id) = encode_reference(dest);
    let link = Link {
        id: db.next_link_id,
        created_at: db.now,
        user_id,
        src_bookmark_id,
        src_note_id,
        src_list_id,
        dest_bookmark_id,
        dest_note_id,
        dest_list_id,
    };
    db.links.push(link);
    db.next_link_id = db.next_link_id + 1;
    proof {
        if old(db).wf() {
            assert forall|i: int, j: int|
                0 <= i < j < db.links@.len() implies db.links@[i].id < db.links@[j].id by {
                if j < db.links@.len() - 1 {
                    assert(old(db).links@[i].id < old(db).links@[j].id);
                } else {
                    assert(old(db).links@[i].id < old(db).next_link_id);
                }
            }
        }
    }
    Ok(link)
}

/// Resolves a list's outgoing edges: the one join-and-disambiguate query.
/// A single pass over the edge table selects the rows whose source list
/// column matches, joins each against the three node tables, and decodes the
/// destination by the fixed precedence — so resolving any number of edges
/// issues exactly one query. A row no join matched fails the whole operation
/// with `InvariantBroken` rather than being silently skipped.
pub fn list_by_list(db: &mut LinkStore, list_id: u64) -> (r: Result<
    Vec<LinkWithContent>,
    LinkError,
>)
    requires
        old(db).query_count < u64::MAX,
    ensures
        final(db).bookmarks == old(db).bookmarks,
        final(db).notes == old(db).notes,
        final(db).lists == old(db).lists,
        final(db).links == old(db).links,
        final(db).next_link_id == old(db).next_link_id,
        final(db).now == old(db).now,
        final(db).query_count == old(db).query_count + 1,
        (match r {
            Ok(results) => resolution_matches(
                *old(db),
                outgoing(old(db).links@, list_id),
                results@,
            ),
            Err(e) => {
                &&& e == LinkError::InvariantBroken
                &&& exists|i: int|
                    0 <= i < outgoing(old(db).links@, list_id).len() && !old(db).link_resolves(
                        #[trigger] outgoing(old(db).links@, list_id)[i],
                    )
            },
        }),
{
    db.query_count = db.query_count + 1;
    let mut results: Vec<LinkWithContent> = Vec::new();
    let mut i: usize = 0;
    let n = db.links.len();
    proof {
        assert(db.links@.take(0) =~= Seq::<Link>::empty());
    }
    while i < n
        invariant
            i <= n,
            n == db.links@.len(),
            db.bookmarks == old(db).bookmarks,
            db.notes == old(db).notes,
            db.lists == old(db).lists,
            db.links == old(db).links,
            db.next_link_id == old(db).next_link_id,
            db.now == old(db).now,
            db.query_count == old(db).query_count + 1,
            results@.len() == outgoing(db.links@.take(i as int), list_id).len(),
            forall|k: int|
                0 <= k < results@.len() ==> old(db).resolved_matches(
                    outgoing(db.links@.take(i as int), list_id)[k],
                    #[trigger] results@[k],
                ),
        decreases n - i,
    {
        let link = db.links[i];
        let from_this_list = match link.src_list_id {
            Some(x) => x == list_id,
            None => false,
        };
        if from_this_list {
            match db.resolve_destination(&link) {
                Some(dest) => {
                    let row = LinkWithContent {
                        id: link.id,
                        created_at: link.created_at,
                        user_id: link.user_id,
                        dest,
                    };
                    results.push(row);
                },
                None => {
                    proof {
                        lemma_outgoing_contains(db.links@, list_id, i as int);
                    }
                    return Err(LinkError::InvariantBroken);
                },
            }
        }
        proof {
            assert(db.links@.take(i as int + 1).drop_last() =~= db.links@.take(i as int));
            assert(db.links@.take(i as int + 1).last() == db.links@[i as int]);
        }
        i = i + 1;
    }
    proof {
        assert(db.links@.take(n as int) =~= db.links@);
    }
    Ok(results)
}

/// Helper for the failure path: an unresolvable row met at index `i` of the
/// table is among the outgoing rows of the queried list.
proof fn lemma_outgoing_contains(links: Seq<Link>, list_id: u64, i: int)
    requires
        0 <= i < links.len(),
        links[i].src_list_id == Some(list_id),
    ensures
        exists|k: int|
            0 <= k < outgoing(links, list_id).len() && outgoing(links, list_id)[k] == links[i],
    decreases links.len(),
{
    if i == links.len() - 1 {
        let out = outgoing(links, list_id);
        assert(links.last() == links[i]);
        assert(out.last() == links[i]);
        assert(out[out.len() - 1] == links[i]);
    } else {
        lemma_outgoing_contains(links.drop_last(), list_id, i);
        let prefix = outgoing(links.drop_last(), list_id);
        let k = choose|k: int| 0 <= k < prefix.len() && prefix[k] == links.drop_last()[i];
        assert(links.drop_last()[i] == links[i]);
        assert(outgoing(links, list_id)[k] == links[i]);
    }
}

} // verus!
