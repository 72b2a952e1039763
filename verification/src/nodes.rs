//! The node catalog's read view: the three node kinds a link may reference.
//!
//! Each kind lives in its own table; a node is uniquely identified within its
//! kind. The link store only reads these rows (the catalog's own CRUD is an
//! external concern), so the structs here carry exactly the fields resolution
//! materializes: the common triple (id, creation time, owner) and the
//! kind-specific content.

use vstd::prelude::*;

verus! {

/// A bookmark node: a titled URL.
#[verifier::ext_equal]
#[derive(Clone, Debug, PartialEq, Eq)]
pub struct Bookmark {
    pub id: u64,
    pub created_at: i64,
    pub user_id: u64,
    pub url: String,
    pub title: String,
}

/// A note node: free-form text content.
#[verifier::ext_equal]
#[derive(Clone, Debug, PartialEq, Eq)]
pub struct Note {
    pub id: u64,
    pub created_at: i64,
    pub user_id: u64,
    pub content: String,
}

/// A list node: a titled collection.
#[verifier::ext_equal]
#[derive(Clone, Debug, PartialEq, Eq)]
pub struct List {
    pub id: u64,
    pub created_at: i64,
    pub user_id: u64,
    pub title: String,
}

/// The first bookmark row with the given id, if any.
pub open spec fn find_bookmark(s: Seq<Bookmark>, id: u64) -> Option<Bookmark>
    decreases s.len(),
{
    if s.len() == 0 {
        None
    } else if s[0].id == id {
        Some(s[0])
    } else {
        find_bookmark(s.drop_first(), id)
    }
}

/// The first note row with the given id, if any.
pub open spec fn find_note(s: Seq<Note>, id: u64) -> Option<Note>
    decreases s.len(),
{
    if s.len() == 0 {
        None
    } else if s[0].id == id {
        Some(s[0])
    } else {
        find_note(s.drop_first(), id)
    }
}

/// The first list row with the given id, if any.
pub open spec fn find_list(s: Seq<List>, id: u64) -> Option<List>
    decreases s.len(),
{
    if s.len() == 0 {
        None
    } else if s[0].id == id {
        Some(s[0])
    } else {
        find_list(s.drop_first(), id)
    }
}

/// Node ids are unique within the bookmark table.
pub open spec fn bookmark_ids_unique(s: Seq<Bookmark>) -> bool {
    forall|i: int, j: int| 0 <= i < j < s.len() ==> s[i].id != s[j].id
}

/// Node ids are unique within the note table.
pub open spec fn note_ids_unique(s: Seq<Note>) -> bool {
    forall|i: int, j: int| 0 <= i < j < s.len() ==> s[i].id != s[j].id
}

/// Node ids are unique within the list table.
pub open spec fn list_ids_unique(s: Seq<List>) -> bool {
    forall|i: int, j: int| 0 <= i < j < s.len() ==> s[i].id != s[j].id
}

/// Index of the first bookmark row with the given id.
pub fn find_bookmark_index(v: &Vec<Bookmark>, id: u64) -> (r: Option<usize>)
    ensures
        (match r {
            Some(i) => i < v@.len() && v@[i as int].id == id && find_bookmark(v@, id) == Some(
                v@[i as int],
            ),
            None => find_bookmark(v@, id) is None,
        }),
{
    let mut i: usize = 0;
    proof {
        assert(v@.skip(0) =~= v@);
    }
    while i < v.len()
        invariant
            i <= v@.len(),
            find_bookmark(v@, id) == find_bookmark(v@.skip(i as int), id),
        decreases v@.len() - i,
    {
        if v[i].id == id {
            proof {
                assert(v@.skip(i as int)[0] == v@[i as int]);
            }
            return Some(i);
        }
        proof {
            assert(v@.skip(i as int)[0] == v@[i as int]);
            assert(v@.skip(i as int).drop_first() =~= v@.skip(i as int + 1));
        }
        i = i + 1;
    }
    proof {
        assert(v@.skip(i as int) =~= Seq::<Bookmark>::empty());
    }
    None
}

/// Index of the first note row with the given id.
pub fn find_note_index(v: &Vec<Note>, id: u64) -> (r: Option<usize>)
    ensures
        (match r {
            Some(i) => i < v@.len() && v@[i as int].id == id && find_note(v@, id) == Some(
                v@[i as int],
            ),
            None => find_note(v@, id) is None,
        }),
{
    let mut i: usize = 0;
    proof {
        assert(v@.skip(0) =~= v@);
    }
    while i < v.len()
        invariant
            i <= v@.len(),
            find_note(v@, id) == find_note(v@.skip(i as int), id),
        decreases v@.len() - i,
    {
        if v[i].id == id {
            proof {
                assert(v@.skip(i as int)[0] == v@[i as int]);
            }
            return Some(i);
        }
        proof {
            assert(v@.skip(i as int)[0] == v@[i as int]);
            assert(v@.skip(i as int).drop_first() =~= v@.skip(i as int + 1));
        }
        i = i + 1;
    }
    proof {
        assert(v@.skip(i as int) =~= Seq::<Note>::empty());
    }
    None
}

/// Index of the first list row with the given id.
pub fn find_list_index(v: &Vec<List>, id: u64) -> (r: Option<usize>)
    ensures
        (match r {
            Some(i) => i < v@.len() && v@[i as int].id == id && find_list(v@, id) == Some(
                v@[i as int],
            ),
            None => find_list(v@, id) is None,
        }),
{
    let mut i: usize = 0;
    proof {
        assert(v@.skip(0) =~= v@);
    }
    while i < v.len()
        invariant
            i <= v@.len(),
            find_list(v@, id) == find_list(v@.skip(i as int), id),
        decreases v@.len() - i,
    {
        if v[i].id == id {
            proof {
                assert(v@.skip(i as int)[0] == v@[i as int]);
            }
            return Some(i);
        }
        proof {
            assert(v@.skip(i as int)[0] == v@[i as int]);
            assert(v@.skip(i as int).drop_first() =~= v@.skip(i as int + 1));
        }
        i = i + 1;
    }
    proof {
        assert(v@.skip(i as int) =~= Seq::<List>::empty());
    }
    None
}

} // verus!
