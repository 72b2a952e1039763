use linkstore::links::{Link, LinkDestination, LinkError, NodeReference};
use linkstore::nodes::{Bookmark, List, Note};
use linkstore::store::{insert, list_by_list, LinkStore};

fn bookmark(id: u64, url: &str, title: &str) -> Bookmark {
    Bookmark {
        id,
        created_at: 100 + id as i64,
        user_id: 1,
        url: url.to_string(),
        title: title.to_string(),
    }
}

fn note(id: u64, content: &str) -> Note {
    Note {
        id,
        created_at: 200 + id as i64,
        user_id: 1,
        content: content.to_string(),
    }
}

fn list(id: u64, title: &str) -> List {
    List {
        id,
        created_at: 300 + id as i64,
        user_id: 1,
        title: title.to_string(),
    }
}

fn seeded_store() -> LinkStore {
    let mut db = LinkStore::new();
    db.now = 1000;
    db.lists.push(list(10, "reading"));
    db.lists.push(list(11, "later"));
    db.bookmarks.push(bookmark(20, "https://example.net", "an example"));
    db.notes.push(note(30, "remember this"));
    db
}

#[test]
fn insert_populates_exactly_one_column_per_side() {
    let mut db = seeded_store();
    let link = insert(
        &mut db,
        5,
        NodeReference::List(10),
        NodeReference::Bookmark(20),
    )
    .unwrap();
    assert_eq!(
        (link.src_bookmark_id, link.src_note_id, link.src_list_id),
        (None, None, Some(10))
    );
    assert_eq!(
        (link.dest_bookmark_id, link.dest_note_id, link.dest_list_id),
        (Some(20), None, None)
    );
    assert_eq!(link.id, 0);
    assert_eq!(link.created_at, 1000);
    assert_eq!(link.user_id, 5);
    assert_eq!(db.links.len(), 1);
}

#[test]
fn round_trip_list_to_bookmark() {
    let mut db = seeded_store();
    let link = insert(
        &mut db,
        5,
        NodeReference::List(10),
        NodeReference::Bookmark(20),
    )
    .unwrap();
    let results = list_by_list(&mut db, 10).unwrap();
    assert_eq!(results.len(), 1);
    let row = &results[0];
    assert_eq!(row.id, link.id);
    assert_eq!(row.created_at, link.created_at);
    assert_eq!(row.user_id, 5);
    match &row.dest {
        LinkDestination::Bookmark(b) => {
            assert_eq!(b.id, 20);
            assert_eq!(b.created_at, 120);
            assert_eq!(b.user_id, 1);
            assert_eq!(b.url, "https://example.net");
            assert_eq!(b.title, "an example");
        }
        other => panic!("expected a bookmark destination, got {:?}", other),
    }
}

#[test]
fn fan_out_resolves_each_kind_correctly() {
    let mut db = seeded_store();
    insert(&mut db, 5, NodeReference::List(10), NodeReference::Note(30)).unwrap();
    insert(
        &mut db,
        5,
        NodeReference::List(10),
        NodeReference::Bookmark(20),
    )
    .unwrap();
    insert(&mut db, 5, NodeReference::List(10), NodeReference::List(11)).unwrap();
    let results = list_by_list(&mut db, 10).unwrap();
    assert_eq!(results.len(), 3);
    match &results[0].dest {
        LinkDestination::Note(n) => assert_eq!(n.content, "remember this"),
        other => panic!("expected a note destination, got {:?}", other),
    }
    match &results[1].dest {
        LinkDestination::Bookmark(b) => assert_eq!(b.url, "https://example.net"),
        other => panic!("expected a bookmark destination, got {:?}", other),
    }
    match &results[2].dest {
        LinkDestination::List(l) => assert_eq!(l.title, "later"),
        other => panic!("expected a list destination, got {:?}", other),
    }
}

#[test]
fn resolution_issues_one_query_regardless_of_fan_out() {
    let mut db = seeded_store();
    for _ in 0..5 {
        insert(
            &mut db,
            5,
            NodeReference::List(10),
            NodeReference::Bookmark(20),
        )
        .unwrap();
    }
    let before = db.query_count;
    let results = list_by_list(&mut db, 10).unwrap();
    assert_eq!(results.len(), 5);
    assert_eq!(db.query_count, before + 1);
}

#[test]
fn insert_issues_one_query() {
    let mut db = seeded_store();
    let before = db.query_count;
    insert(&mut db, 5, NodeReference::List(10), NodeReference::Note(30)).unwrap();
    assert_eq!(db.query_count, before + 1);
}

#[test]
fn broken_exclusivity_fails_resolution() {
    let mut db = seeded_store();
    // A synthetic row violating the invariant: all three destination columns null.
    db.links.push(Link {
        id: 0,
        created_at: 1000,
        user_id: 5,
        src_bookmark_id: None,
        src_note_id: None,
        src_list_id: Some(10),
        dest_bookmark_id: None,
        dest_note_id: None,
        dest_list_id: None,
    });
    db.next_link_id = 1;
    assert_eq!(list_by_list(&mut db, 10), Err(LinkError::InvariantBroken));
}

#[test]
fn dangling_destination_fails_resolution() {
    let mut db = seeded_store();
    // A synthetic row whose only destination column references no stored note.
    db.links.push(Link {
        id: 0,
        created_at: 1000,
        user_id: 5,
        src_bookmark_id: None,
        src_note_id: None,
        src_list_id: Some(10),
        dest_bookmark_id: None,
        dest_note_id: Some(999),
        dest_list_id: None,
    });
    db.next_link_id = 1;
    assert_eq!(list_by_list(&mut db, 10), Err(LinkError::InvariantBroken));
}

#[test]
fn broken_row_of_another_list_does_not_fail_resolution() {
    let mut db = seeded_store();
    insert(
        &mut db,
        5,
        NodeReference::List(10),
        NodeReference::Bookmark(20),
    )
    .unwrap();
    db.links.push(Link {
        id: 1,
        created_at: 1000,
        user_id: 5,
        src_bookmark_id: None,
        src_note_id: None,
        src_list_id: Some(11),
        dest_bookmark_id: None,
        dest_note_id: None,
        dest_list_id: None,
    });
    db.next_link_id = 2;
    assert_eq!(list_by_list(&mut db, 10).unwrap().len(), 1);
    assert_eq!(list_by_list(&mut db, 11), Err(LinkError::InvariantBroken));
}

#[test]
fn missing_destination_is_rejected_and_persists_no_row() {
    let mut db = seeded_store();
    let r = insert(
        &mut db,
        5,
        NodeReference::List(10),
        NodeReference::Bookmark(999),
    );
    assert_eq!(r, Err(LinkError::ReferentialViolation));
    assert_eq!(db.links.len(), 0);
    assert_eq!(db.next_link_id, 0);
}

#[test]
fn missing_source_is_rejected_and_persists_no_row() {
    let mut db = seeded_store();
    let r = insert(
        &mut db,
        5,
        NodeReference::List(999),
        NodeReference::Bookmark(20),
    );
    assert_eq!(r, Err(LinkError::ReferentialViolation));
    assert_eq!(db.links.len(), 0);
}

#[test]
fn kind_mismatch_is_rejected() {
    let mut db = seeded_store();
    // Id 20 exists as a bookmark, not as a note: the stated kind decides.
    let r = insert(&mut db, 5, NodeReference::List(10), NodeReference::Note(20));
    assert_eq!(r, Err(LinkError::ReferentialViolation));
    assert_eq!(db.links.len(), 0);
}

#[test]
fn resolution_order_is_stable_across_calls() {
    let mut db = seeded_store();
    insert(&mut db, 5, NodeReference::List(10), NodeReference::Note(30)).unwrap();
    insert(&mut db, 5, NodeReference::List(10), NodeReference::List(11)).unwrap();
    insert(
        &mut db,
        5,
        NodeReference::List(10),
        NodeReference::Bookmark(20),
    )
    .unwrap();
    let first = list_by_list(&mut db, 10).unwrap();
    let second = list_by_list(&mut db, 10).unwrap();
    assert_eq!(first, second);
}

#[test]
fn resolution_is_ordered_by_link_id_ascending() {
    let mut db = seeded_store();
    for _ in 0..4 {
        insert(
            &mut db,
            5,
            NodeReference::List(10),
            NodeReference::Bookmark(20),
        )
        .unwrap();
    }
    let results = list_by_list(&mut db, 10).unwrap();
    let ids: Vec<u64> = results.iter().map(|r| r.id).collect();
    assert_eq!(ids, vec![0, 1, 2, 3]);
}

#[test]
fn unknown_list_resolves_to_empty() {
    let mut db = seeded_store();
    insert(
        &mut db,
        5,
        NodeReference::List(10),
        NodeReference::Bookmark(20),
    )
    .unwrap();
    assert_eq!(list_by_list(&mut db, 999).unwrap().len(), 0);
}

#[test]
fn edges_of_other_lists_are_not_returned() {
    let mut db = seeded_store();
    insert(
        &mut db,
        5,
        NodeReference::List(10),
        NodeReference::Bookmark(20),
    )
    .unwrap();
    insert(&mut db, 5, NodeReference::List(11), NodeReference::Note(30)).unwrap();
    let results = list_by_list(&mut db, 11).unwrap();
    assert_eq!(results.len(), 1);
    match &results[0].dest {
        LinkDestination::Note(n) => assert_eq!(n.id, 30),
        other => panic!("expected a note destination, got {:?}", other),
    }
}

#[test]
fn a_list_may_link_to_itself() {
    let mut db = seeded_store();
    insert(&mut db, 5, NodeReference::List(10), NodeReference::List(10)).unwrap();
    let results = list_by_list(&mut db, 10).unwrap();
    assert_eq!(results.len(), 1);
    match &results[0].dest {
        LinkDestination::List(l) => assert_eq!(l.id, 10),
        other => panic!("expected a list destination, got {:?}", other),
    }
}

#[test]
fn owner_is_taken_from_the_caller_not_the_nodes() {
    let mut db = seeded_store();
    // The seeded nodes belong to user 1; the link's owner is whoever inserts.
    let link = insert(
        &mut db,
        42,
        NodeReference::List(10),
        NodeReference::Bookmark(20),
    )
    .unwrap();
    assert_eq!(link.user_id, 42);
    let results = list_by_list(&mut db, 10).unwrap();
    assert_eq!(results[0].user_id, 42);
    match &results[0].dest {
        LinkDestination::Bookmark(b) => assert_eq!(b.user_id, 1),
        other => panic!("expected a bookmark destination, got {:?}", other),
    }
}

#[test]
fn fresh_ids_and_timestamps_are_assigned_at_insertion() {
    let mut db = seeded_store();
    let a = insert(&mut db, 5, NodeReference::List(10), NodeReference::Note(30)).unwrap();
    db.now = 2000;
    let b = insert(
        &mut db,
        5,
        NodeReference::List(10),
        NodeReference::Bookmark(20),
    )
    .unwrap();
    assert_eq!(a.id, 0);
    assert_eq!(b.id, 1);
    assert_eq!(a.created_at, 1000);
    assert_eq!(b.created_at, 2000);
}
