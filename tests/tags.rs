use rss_scrapers::{split_tags, tag_in_title};

fn strings(v: &[&str]) -> Vec<String> {
    v.iter().map(|s| s.to_string()).collect()
}

#[test]
fn title_types_are_relevant_unless_queried() {
    let query = strings(&["foo", "bar"]);
    for code in [1u8, 3, 4] {
        assert!(tag_in_title("artist_x", code, &query));
        assert!(!tag_in_title("foo", code, &query));
    }
}

#[test]
fn other_types_are_never_relevant() {
    let query = strings(&["foo"]);
    for code in [0u8, 2, 5, 6, 7, 255] {
        assert!(!tag_in_title("artist_x", code, &query));
        assert!(!tag_in_title("artist_x", code, &[]));
    }
}

#[test]
fn query_terms_compare_without_case_folding() {
    let query = strings(&["Artist_X"]);
    assert!(tag_in_title("artist_x", 1, &query));
}

#[test]
fn empty_query_keeps_title_types() {
    assert!(tag_in_title("someone", 4, &[]));
}

#[test]
fn split_keeps_order_and_empty_pieces() {
    assert_eq!(split_tags("foo bar artist_x"), strings(&["foo", "bar", "artist_x"]));
    assert_eq!(split_tags(""), strings(&[""]));
    assert_eq!(split_tags("a  b"), strings(&["a", "", "b"]));
    assert_eq!(split_tags(" x "), strings(&["", "x", ""]));
    assert_eq!(split_tags("ünï cödé"), strings(&["ünï", "cödé"]));
}
