use linkstore::links::{decode_reference, encode_reference, NodeReference};

#[test]
fn encode_sets_exactly_one_column_per_kind() {
    assert_eq!(
        encode_reference(NodeReference::Bookmark(7)),
        (Some(7), None, None)
    );
    assert_eq!(
        encode_reference(NodeReference::Note(8)),
        (None, Some(8), None)
    );
    assert_eq!(
        encode_reference(NodeReference::List(9)),
        (None, None, Some(9))
    );
}

#[test]
fn decode_inverts_encode() {
    for r in [
        NodeReference::Bookmark(1),
        NodeReference::Note(2),
        NodeReference::List(3),
    ] {
        let (bookmark_id, note_id, list_id) = encode_reference(r);
        assert_eq!(decode_reference(bookmark_id, note_id, list_id), Some(r));
    }
}

#[test]
fn decode_fails_only_when_all_columns_null() {
    assert_eq!(decode_reference(None, None, None), None);
    assert_eq!(
        decode_reference(Some(1), None, None),
        Some(NodeReference::Bookmark(1))
    );
    assert_eq!(
        decode_reference(None, Some(2), None),
        Some(NodeReference::Note(2))
    );
    assert_eq!(
        decode_reference(None, None, Some(3)),
        Some(NodeReference::List(3))
    );
}

#[test]
fn decode_precedence_is_note_then_bookmark_then_list() {
    // The precedence only matters on corrupt rows with more than one column set.
    assert_eq!(
        decode_reference(Some(1), Some(2), Some(3)),
        Some(NodeReference::Note(2))
    );
    assert_eq!(
        decode_reference(Some(1), None, Some(3)),
        Some(NodeReference::Bookmark(1))
    );
}
