use rss_scrapers::{merge_codes, missing_tags, split_tags, title_for_post, HydrateError, Post};

fn strings(v: &[&str]) -> Vec<String> {
    v.iter().map(|s| s.to_string()).collect()
}

fn post(id: i64, md5: &str, tags: &str) -> Post {
    Post {
        id,
        created_at: "Mon Dec 05 08:26:31 -0600 2022".to_string(),
        md5: md5.to_string(),
        tags: tags.to_string(),
    }
}

#[test]
fn title_lists_relevant_tags() {
    let p = post(7, "abc123", "foo bar artist_x");
    let tags = split_tags(&p.tags);
    let title = title_for_post(&p, &tags, &vec![0, 5, 1], &strings(&["foo"]));
    assert_eq!(title, "artist_x - abc123");
}

#[test]
fn title_falls_back_to_id() {
    let p = post(42, "zz", "foo bar");
    let tags = split_tags(&p.tags);
    assert_eq!(title_for_post(&p, &tags, &vec![0, 5], &[]), "42 - zz");
    let p = post(-3, "m", "x");
    assert_eq!(title_for_post(&p, &strings(&["x"]), &vec![6], &[]), "-3 - m");
}

#[test]
fn title_excludes_query_terms_and_keeps_tag_order() {
    let p = post(1, "h", "zeta char_b foo alpha_c");
    let tags = split_tags(&p.tags);
    let title = title_for_post(&p, &tags, &vec![1, 4, 3, 3], &strings(&["foo"]));
    assert_eq!(title, "zeta, char_b, alpha_c - h");
}

#[test]
fn title_decodes_character_references() {
    let p = post(1, "h", "rock_&amp;_roll");
    let tags = split_tags(&p.tags);
    assert_eq!(title_for_post(&p, &tags, &vec![3], &[]), "rock_&_roll - h");
}

#[test]
fn title_repeats_a_relevant_tag_that_repeats() {
    let p = post(1, "h", "a b a");
    let tags = split_tags(&p.tags);
    assert_eq!(title_for_post(&p, &tags, &vec![0, 1, 1], &[]), "a, b, a - h".to_string());
}

#[test]
fn missing_tags_keep_order() {
    let tags = strings(&["a", "b", "c", "d"]);
    assert_eq!(missing_tags(&tags, &vec![Some(1), None, Some(0), None]), strings(&["b", "d"]));
    assert!(missing_tags(&tags, &vec![Some(1); 4]).is_empty());
}

#[test]
fn merge_prefers_first_read() {
    let tags = strings(&["a", "b"]);
    assert_eq!(merge_codes(&tags, &vec![Some(1), None], &vec![Some(5), Some(4)]), Ok(vec![1, 4]));
}

#[test]
fn tag_still_unreadable_is_fatal() {
    let tags = strings(&["a", "b", "c"]);
    assert_eq!(
        merge_codes(&tags, &vec![Some(1), None, None], &vec![None, None, Some(3)]),
        Err(HydrateError::UnreadableTag { name: "b".to_string() })
    );
}

#[test]
fn title_uses_given_decoded_forms() {
    let p = post(9, "q", "x_(y) z");
    let tags = split_tags(&p.tags);
    let decoded = strings(&["X (Y)", "Z"]);
    assert_eq!(
        rss_scrapers::title_from_decoded(&p, &tags, &decoded, &vec![4, 1], &strings(&["z"])),
        "X (Y) - q"
    );
}
