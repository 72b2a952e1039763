//! Laws relating the store's operations: statements that span more than one
//! operation's own contract, each proved from what the contracts state.
//!
//! Each law quantifies over a resolution result through the same predicate
//! shape `list_by_list` ensures of its `Ok` value: a sequence with one row per
//! outgoing edge, in table order, each row fully resolved.

use vstd::prelude::*;

use crate::links::{encoded_columns, Link, LinkDestination, LinkWithContent, NodeReference};
use crate::nodes::{find_bookmark, find_list, find_note};
use crate::store::{outgoing, resolution_matches, LinkStore};

verus! {

/// Law (round trip): insert an edge from list `list_id` to bookmark
/// `bookmark_id` into a store whose table held no other outgoing edge of that
/// list — the store `s` is the state after that insertion, its last row the
/// new edge. Then any resolution of `list_id` against `s` yields exactly one
/// row: the new edge's identity and owner, with the stored bookmark, in its
/// current state, as the destination.
pub proof fn lemma_round_trip(
    s: LinkStore,
    list_id: u64,
    bookmark_id: u64,
    results: Seq<LinkWithContent>,
)
    requires
        s.links@.len() > 0,
        outgoing(s.links@.drop_last(), list_id) == Seq::<Link>::empty(),
        find_bookmark(s.bookmarks@, bookmark_id) is Some,
        s.links@.last().src_columns() == encoded_columns(NodeReference::List(list_id)),
        s.links@.last().dest_columns() == encoded_columns(NodeReference::Bookmark(bookmark_id)),
        resolution_matches(s, outgoing(s.links@, list_id), results),
    ensures
        results.len() == 1,
        results[0].id == s.links@.last().id,
        results[0].created_at == s.links@.last().created_at,
        results[0].user_id == s.links@.last().user_id,
        results[0].dest == LinkDestination::Bookmark(find_bookmark(s.bookmarks@, bookmark_id)->Some_0),
{
    let link = s.links@.last();
    assert(link.src_list_id == Some(list_id));
    assert(outgoing(s.links@, list_id) == Seq::<Link>::empty().push(link));
    assert(outgoing(s.links@, list_id)[0] == link);
    assert(s.resolved_matches(link, results[0]));
    assert(link.dest_note_id is None);
    assert(s.joined_note(link) is None);
    assert(link.dest_bookmark_id == Some(bookmark_id));
}

/// Law (fan-out correctness): an edge whose destination columns decode to a
/// reference naming an existing node resolves to a destination of exactly
/// that kind, carrying exactly that node — never a cross-kind
/// misclassification. Three edges from one list to a note, a bookmark and a
/// list therefore come back as a note, a bookmark and a list.
pub proof fn lemma_fan_out_kinds(s: LinkStore, l: Link)
    requires
        l.dest_ref() matches Some(r) && s.node_exists(r),
    ensures
        s.link_resolves(l),
        l.dest_ref() matches Some(NodeReference::Note(id)) ==> s.resolved_dest(l)
            == LinkDestination::Note(find_note(s.notes@, id)->Some_0),
        l.dest_ref() matches Some(NodeReference::Bookmark(id)) ==> s.resolved_dest(l)
            == LinkDestination::Bookmark(find_bookmark(s.bookmarks@, id)->Some_0),
        l.dest_ref() matches Some(NodeReference::List(id)) ==> s.resolved_dest(l)
            == LinkDestination::List(find_list(s.lists@, id)->Some_0),
{
}

/// Law (ordering stability): two resolutions of the same list against the
/// same store agree row for row — the same edges, in the same order, with
/// equal destinations.
pub proof fn lemma_ordering_stability(
    s: LinkStore,
    list_id: u64,
    first: Seq<LinkWithContent>,
    second: Seq<LinkWithContent>,
)
    requires
        resolution_matches(s, outgoing(s.links@, list_id), first),
        resolution_matches(s, outgoing(s.links@, list_id), second),
    ensures
        first == second,
{
    assert forall|i: int| 0 <= i < first.len() implies first[i] == second[i] by {
        let l = outgoing(s.links@, list_id)[i];
        assert(s.resolved_matches(l, first[i]));
        assert(s.resolved_matches(l, second[i]));
        assert(first[i] =~= second[i]);
    }
    assert(first =~= second);
}

/// Rows selected out of the table resolve whenever every row of the table
/// does.
proof fn lemma_outgoing_resolves(s: LinkStore, links: Seq<Link>, list_id: u64)
    requires
        forall|i: int| 0 <= i < links.len() ==> s.link_resolves(#[trigger] links[i]),
    ensures
        forall|k: int|
            0 <= k < outgoing(links, list_id).len() ==> s.link_resolves(
                #[trigger] outgoing(links, list_id)[k],
            ),
    decreases links.len(),
{
    if links.len() > 0 {
        lemma_outgoing_resolves(s, links.drop_last(), list_id);
        let prefix = outgoing(links.drop_last(), list_id);
        let out = outgoing(links, list_id);
        assert forall|k: int| 0 <= k < out.len() implies s.link_resolves(out[k]) by {
            if k < prefix.len() {
                assert(out[k] == prefix[k]);
            } else {
                assert(out[k] == links.last());
                assert(s.link_resolves(links[links.len() - 1]));
            }
        }
    }
}

/// Law (no false alarms): against a well-formed store the decode step cannot
/// fail — every outgoing edge of any list resolves, so resolution never
/// reports a broken invariant. The failure case exists only to surface
/// corruption, not to occur in a correctly maintained store.
pub proof fn lemma_wf_resolution_succeeds(s: LinkStore, list_id: u64)
    requires
        s.wf(),
    ensures
        forall|k: int|
            0 <= k < outgoing(s.links@, list_id).len() ==> s.link_resolves(
                #[trigger] outgoing(s.links@, list_id)[k],
            ),
{
    assert forall|i: int| 0 <= i < s.links@.len() implies s.link_resolves(
        #[trigger] s.links@[i],
    ) by {
        let l = s.links@[i];
        assert(l.dest_exclusive());
        assert(s.link_referential_ok(l));
    }
    lemma_outgoing_resolves(s, s.links@, list_id);
}

/// Every id among the outgoing rows stays below a bound that every id in the
/// table respects.
proof fn lemma_outgoing_ids_bounded(links: Seq<Link>, list_id: u64, bound: u64)
    requires
        forall|i: int| 0 <= i < links.len() ==> links[i].id < bound,
    ensures
        forall|k: int|
            0 <= k < outgoing(links, list_id).len() ==> outgoing(links, list_id)[k].id < bound,
    decreases links.len(),
{
    if links.len() > 0 {
        lemma_outgoing_ids_bounded(links.drop_last(), list_id, bound);
    }
}

/// Selecting the outgoing rows of one list preserves the table's strictly
/// increasing id order.
proof fn lemma_outgoing_sorted(links: Seq<Link>, list_id: u64)
    requires
        forall|i: int, j: int| 0 <= i < j < links.len() ==> links[i].id < links[j].id,
    ensures
        forall|i: int, j: int|
            0 <= i < j < outgoing(links, list_id).len() ==> outgoing(links, list_id)[i].id
                < outgoing(links, list_id)[j].id,
    decreases links.len(),
{
    if links.len() > 0 {
        let prefix = links.drop_last();
        lemma_outgoing_sorted(prefix, list_id);
        if links.last().src_list_id == Some(list_id) {
            lemma_outgoing_ids_bounded(prefix, list_id, links.last().id);
            assert(outgoing(links, list_id) == outgoing(prefix, list_id).push(links.last()));
        }
    }
}

/// Law (deterministic order): against a well-formed store the resolved rows
/// come back ordered by edge id ascending — the documented, stable ordering.
pub proof fn lemma_resolution_ordered_by_id(
    s: LinkStore,
    list_id: u64,
    results: Seq<LinkWithContent>,
)
    requires
        s.wf(),
        resolution_matches(s, outgoing(s.links@, list_id), results),
    ensures
        forall|i: int, j: int| 0 <= i < j < results.len() ==> results[i].id < results[j].id,
{
    lemma_outgoing_sorted(s.links@, list_id);
    assert forall|i: int, j: int|
        0 <= i < j < results.len() implies results[i].id < results[j].id by {
        let out = outgoing(s.links@, list_id);
        assert(s.resolved_matches(out[i], results[i]));
        assert(s.resolved_matches(out[j], results[j]));
    }
}

} // verus!
