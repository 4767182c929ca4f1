use std::collections::HashMap;

use rss_scrapers::{encode_code, stored_code, OpenPhase};

#[test]
fn stored_value_round_trip() {
    for code in [0u8, 1, 3, 4, 5, 6, 255] {
        assert_eq!(stored_code(&Some(encode_code(code))), Some(code));
    }
}

#[test]
fn putting_twice_reads_back_the_code() {
    let mut store: HashMap<String, Vec<u8>> = HashMap::new();
    store.insert("artist_x".to_string(), encode_code(1));
    store.insert("artist_x".to_string(), encode_code(1));
    assert_eq!(stored_code(&store.get("artist_x").cloned()), Some(1));
    assert_eq!(store.len(), 1);
}

#[test]
fn empty_or_absent_values_need_a_lookup() {
    assert_eq!(stored_code(&None), None);
    assert_eq!(stored_code(&Some(Vec::new())), None);
    assert_eq!(stored_code(&Some(vec![4, 1])), Some(4));
}

fn run(outcomes: &[bool]) -> (OpenPhase, usize) {
    let mut phase = OpenPhase::Opening;
    let mut repairs = 0;
    let mut it = outcomes.iter();
    while !phase.is_terminal() {
        if phase.is_repair() {
            repairs += 1;
        }
        let ok = *it.next().expect("enough outcomes");
        phase = phase.step(ok);
    }
    (phase, repairs)
}

#[test]
fn open_succeeds_without_repair() {
    assert_eq!(run(&[true]), (OpenPhase::Ready, 0));
}

#[test]
fn corrupted_store_is_repaired_once_then_reopened() {
    assert_eq!(run(&[false, true, true]), (OpenPhase::Ready, 1));
}

#[test]
fn failed_repair_is_fatal() {
    assert_eq!(run(&[false, false]), (OpenPhase::Failed, 1));
}

#[test]
fn failed_reopen_is_fatal_after_one_repair() {
    assert_eq!(run(&[false, true, false]), (OpenPhase::Failed, 1));
}
