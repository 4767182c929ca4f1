use rss_scrapers::{any_of, is_final_event, is_kept_news, part_fragment, part_title, quarter_open};

fn strings(v: &[&str]) -> Vec<String> {
    v.iter().map(|s| s.to_string()).collect()
}

#[test]
fn final_events_end_with_final() {
    assert!(is_final_event("Part 12 FINAL"));
    assert!(is_final_event("FINAL"));
    assert!(!is_final_event("FINAL part"));
    assert!(!is_final_event("final"));
    assert!(!is_final_event(""));
}

#[test]
fn final_parts_are_marked() {
    let finals = strings(&["/c/series-volume-3-part-8"]);
    let f = part_fragment("series-volume-3-part-8");
    assert_eq!(f, "/c/series-volume-3-part-8");
    assert_eq!(part_title("Volume 3 Part 8", &f, &finals), "Volume 3 Part 8 FINAL");
    let g = part_fragment("series-volume-3-part-7");
    assert_eq!(part_title("Volume 3 Part 7", &g, &finals), "Volume 3 Part 7");
}

#[test]
fn quarters_close_on_the_fourteenth_after_they_end() {
    assert!(quarter_open(2024, 1, (2024, 4, 13)));
    assert!(!quarter_open(2024, 1, (2024, 4, 14)));
    assert!(quarter_open(2024, 3, (2024, 10, 1)));
    assert!(quarter_open(2024, 4, (2025, 1, 13)));
    assert!(!quarter_open(2024, 4, (2025, 1, 14)));
    assert!(!quarter_open(2023, 2, (2024, 1, 1)));
}

#[test]
fn searches_are_alternatives() {
    assert_eq!(any_of(&strings(&["a b", "c"])), "(a b)|(c)");
    assert_eq!(any_of(&strings(&["only"])), "(only)");
    assert_eq!(any_of(&Vec::new()), "()");
}

#[test]
fn hrpg_news_is_left_out() {
    assert!(is_kept_news("Visual Novel Translation Status (05/01)"));
    assert!(!is_kept_news("Visual Novel Translation Status H-RPG edition"));
    assert!(!is_kept_news("H-RPG"));
    assert!(is_kept_news("H-RP"));
}
