use rss_scrapers::{batch_query, reconcile, tag_batches, tags_url, HydrateError, TagRecord};

fn strings(v: &[&str]) -> Vec<String> {
    v.iter().map(|s| s.to_string()).collect()
}

fn record(name: &str, type_field: i64) -> TagRecord {
    TagRecord { name: name.to_string(), type_field }
}

fn names(n: usize) -> Vec<String> {
    (0..n).map(|i| format!("tag{i}")).collect()
}

#[test]
fn batches_round_up() {
    assert_eq!(tag_batches(&names(0)).len(), 0);
    assert_eq!(tag_batches(&names(1)).len(), 1);
    assert_eq!(tag_batches(&names(50)).len(), 1);
    assert_eq!(tag_batches(&names(51)).len(), 2);
    assert_eq!(tag_batches(&names(100)).len(), 2);
    assert_eq!(tag_batches(&names(101)).len(), 3);
}

#[test]
fn batches_keep_order_and_size() {
    let all = names(120);
    let b = tag_batches(&all);
    assert_eq!(b.iter().map(|c| c.len()).collect::<Vec<_>>(), vec![50, 50, 20]);
    assert_eq!(b.concat(), all);
}

#[test]
fn batch_query_decodes_then_escapes() {
    let batch = strings(&["a&amp;b", "c++", "plain_tag", "é"]);
    assert_eq!(batch_query(&batch), "a%26b+c%2B%2B+plain_tag+%C3%A9");
    assert_eq!(
        tags_url(&strings(&["x"])),
        "https://gelbooru.com/index.php?page=dapi&s=tag&q=index&json=1&names=x"
    );
}

#[test]
fn reconciles_exact_names() {
    let rec = reconcile(&strings(&["Bar", "baz"]), &vec![record("baz", 4), record("Bar", 3)])
        .unwrap();
    assert_eq!(rec.writes, vec![("baz".to_string(), 4), ("Bar".to_string(), 3)]);
    assert!(rec.unmatched.is_empty());
    assert_eq!(rec.check(), Ok(()));
}

#[test]
fn lower_cased_fallback_matches_requested_name() {
    let rec = reconcile(&strings(&["foo", "Bar"]), &vec![record("Foo", 1), record("Bar", 3)])
        .unwrap();
    assert_eq!(
        rec.writes,
        vec![("Foo".to_string(), 1), ("foo".to_string(), 1), ("Bar".to_string(), 3)]
    );
    assert!(rec.unmatched.is_empty());
}

#[test]
fn returned_name_is_always_written() {
    // The response names "foo" for the requested "Foo": "foo" and "Bar" are
    // stored, but lower-casing the returned name does not give "Foo", so
    // "Foo" stays unanswered.
    let rec = reconcile(&strings(&["Foo", "Bar"]), &vec![record("foo", 1), record("Bar", 3)])
        .unwrap();
    assert_eq!(rec.writes, vec![("foo".to_string(), 1), ("Bar".to_string(), 3)]);
    assert_eq!(rec.unmatched, strings(&["Foo"]));
}

#[test]
fn unmatched_names_are_fatal() {
    let rec = reconcile(&strings(&["a", "b", "c"]), &vec![record("b", 0)]).unwrap();
    assert_eq!(rec.check(), Err(HydrateError::Unmatched { names: strings(&["a", "c"]) }));
}

#[test]
fn duplicated_records_are_tolerated() {
    let rec = reconcile(&strings(&["a", "a"]), &vec![record("a", 1), record("a", 1)]).unwrap();
    assert_eq!(rec.writes, vec![("a".to_string(), 1), ("a".to_string(), 1)]);
    assert!(rec.unmatched.is_empty());
}

#[test]
fn type_outside_code_range_is_an_error() {
    let r = reconcile(&strings(&["a", "b"]), &vec![record("a", 1), record("b", 300)]);
    assert_eq!(r, Err(HydrateError::InvalidTypeCode { name: "b".to_string(), code: 300 }));
    let r = reconcile(&strings(&["a"]), &vec![record("a", -1)]);
    assert_eq!(r, Err(HydrateError::InvalidTypeCode { name: "a".to_string(), code: -1 }));
}

#[test]
fn reconcile_with_given_lower_case_names() {
    let batch = strings(&["ä_tag", "b"]);
    let records = vec![record("Ä_TAG", 4), record("b", 0)];
    let rec = rss_scrapers::reconcile_lowered(&batch, &records, &strings(&["ä_tag", "b"])).unwrap();
    assert_eq!(
        rec.writes,
        vec![("Ä_TAG".to_string(), 4), ("ä_tag".to_string(), 4), ("b".to_string(), 0)]
    );
    assert!(rec.unmatched.is_empty());
    let rec = rss_scrapers::reconcile_lowered(&batch, &records, &strings(&["x", "b"])).unwrap();
    assert_eq!(rec.unmatched, strings(&["ä_tag"]));
}
