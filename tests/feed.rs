use rss_scrapers::{
    blacklist_match, exclusion_suffix, feed_link, post_link, posts_url, screen_posts, split_tags,
    text_before, Post,
};

fn strings(v: &[&str]) -> Vec<String> {
    v.iter().map(|s| s.to_string()).collect()
}

fn post(id: i64, tags: &str) -> Post {
    Post { id, created_at: String::new(), md5: "m".to_string(), tags: tags.to_string() }
}

#[test]
fn first_blacklisted_tag_is_reported() {
    let bl = strings(&["gore", "spoilers"]);
    assert_eq!(blacklist_match(&split_tags("a spoilers gore"), &bl), Some("spoilers".to_string()));
    assert_eq!(blacklist_match(&split_tags("a b"), &bl), None);
    assert_eq!(blacklist_match(&split_tags("a b"), &[]), None);
}

#[test]
fn blacklisted_posts_are_dropped_and_terms_recorded_once() {
    let posts = vec![
        post(1, "fine tag"),
        post(2, "zed gore"),
        post(3, "gore other"),
        post(4, "ok"),
        post(5, "abc"),
    ];
    let bl = strings(&["gore", "zed", "abc", "unused"]);
    let s = screen_posts(&posts, &bl);
    assert_eq!(s.kept, vec![0, 3]);
    assert_eq!(s.matched, strings(&["abc", "gore", "zed"]));
}

#[test]
fn nothing_blacklisted_keeps_everything() {
    let posts = vec![post(1, "a"), post(2, "b")];
    let s = screen_posts(&posts, &strings(&["c"]));
    assert_eq!(s.kept, vec![0, 1]);
    assert!(s.matched.is_empty());
}

#[test]
fn code_point_order() {
    assert!(text_before("abc", "abd"));
    assert!(text_before("ab", "abc"));
    assert!(!text_before("abc", "abc"));
    assert!(text_before("Z", "a"));
    assert!(text_before("z", "é"));
    assert!(!text_before("b", "a"));
}

#[test]
fn exclusion_suffix_escapes_each_term() {
    assert_eq!(exclusion_suffix(&strings(&["abc", "c++", "gore"])), "+-abc+-c%2B%2B+-gore");
    assert_eq!(exclusion_suffix(&Vec::new()), "");
}

#[test]
fn feed_link_carries_exclusions() {
    let q = strings(&["cat ears", "solo"]);
    assert_eq!(
        feed_link(&q, &strings(&["gore"])),
        "https://gelbooru.com/index.php?page=post&s=list&tags=cat%20ears+solo+-gore"
    );
    assert_eq!(feed_link(&q, &Vec::new()), "https://gelbooru.com/index.php?page=post&s=list&tags=cat%20ears+solo");
}

#[test]
fn search_and_post_urls() {
    assert_eq!(
        posts_url(&strings(&["a/b", "rating:safe"])),
        "https://gelbooru.com/index.php?page=dapi&s=post&q=index&json=1&tags=a%2Fb+rating%3Asafe"
    );
    assert_eq!(post_link(8123), "https://gelbooru.com/index.php?page=post&s=view&id=8123");
}
