use rss_scrapers::{
    chapter_blocked, chapter_title, english_or_first, ChapterInfo, ChapterPaging, PagingError,
    PAGE_SIZE,
};

fn s(v: &str) -> String {
    v.to_string()
}

fn chapter(volume: Option<&str>, number: Option<&str>, title: Option<&str>) -> ChapterInfo {
    ChapterInfo {
        id: s("c1"),
        volume: volume.map(s),
        chapter: number.map(s),
        title: title.map(s),
        external_url: None,
        pages: 12,
        created_at: s("2024-01-02T03:04:05+00:00"),
        relationships: Vec::new(),
    }
}

#[test]
fn english_text_is_preferred() {
    let l = vec![(s("ja"), s("日本")), (s("en"), s("Japan"))];
    assert_eq!(english_or_first(&l), Some(s("Japan")));
    let l = vec![(s("ja"), s("日本")), (s("fr"), s("Japon"))];
    assert_eq!(english_or_first(&l), Some(s("日本")));
    assert_eq!(english_or_first(&Vec::new()), None);
}

#[test]
fn chapter_titles() {
    let t = |v, c, n| chapter_title("Series", &chapter(v, c, n));
    assert_eq!(t(Some("2"), Some("10"), Some("Start")), "Series - Volume 2, Chapter 10 - Start");
    assert_eq!(t(Some("2"), Some("10"), None), "Series - Volume 2, Chapter 10");
    assert_eq!(t(None, Some("10"), Some("Start")), "Series - Chapter 10 - Start");
    assert_eq!(t(None, Some("10"), None), "Series - Chapter 10");
    assert_eq!(t(None, None, Some("Oneshot")), "Series - Oneshot");
    assert_eq!(t(Some("2"), None, Some("x")), "Series -- unknown chapter");
    assert_eq!(t(None, None, None), "Series -- unknown chapter");
}

#[test]
fn external_chapters_are_marked() {
    let mut c = chapter(None, Some("1"), None);
    c.pages = 0;
    c.external_url = Some(s("https://example.org/c/1"));
    assert_eq!(chapter_title("S", &c), "S - Chapter 1 (External)");
    c.external_url = Some(s(""));
    assert_eq!(chapter_title("S", &c), "S - Chapter 1");
    c.pages = 3;
    c.external_url = Some(s("https://example.org/c/1"));
    assert_eq!(chapter_title("S", &c), "S - Chapter 1");
}

#[test]
fn blocked_groups() {
    let mut c = chapter(None, Some("1"), None);
    c.relationships = vec![(s("manga"), s("g1")), (s("scanlation_group"), s("g2"))];
    assert!(chapter_blocked(&c, &[s("g2")]));
    assert!(!chapter_blocked(&c, &[s("g1")]));
    assert!(!chapter_blocked(&c, &[]));
}

#[test]
fn paging_walks_the_feed() {
    let mut p = ChapterPaging::new();
    assert_eq!(p.next_offset(), Some(0));
    assert_eq!(p.accept(PAGE_SIZE, 250), Ok(()));
    assert_eq!(p.next_offset(), Some(100));
    assert_eq!(p.accept(PAGE_SIZE, 250), Ok(()));
    assert_eq!(p.next_offset(), Some(200));
    assert_eq!(p.accept(50, 250), Ok(()));
    assert_eq!(p.next_offset(), None);
}

#[test]
fn short_page_before_the_end_is_an_error() {
    let mut p = ChapterPaging::new();
    assert_eq!(p.accept(40, 250), Err(PagingError { offset: 0, total: 250, received: 40 }));
    let mut p = ChapterPaging::new();
    assert_eq!(p.accept(0, 0), Ok(()));
    assert_eq!(p.next_offset(), None);
}
