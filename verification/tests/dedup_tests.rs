use job_scraper::dedup::{DedupIndex, IdentityKey};
use job_scraper::models::Target;

fn key(source: Target, id: &str) -> IdentityKey {
    IdentityKey::new(source, id.to_owned())
}

#[test]
fn first_occurrence_is_accepted_repeats_are_not() {
    let mut index = DedupIndex::new();
    assert!(index.accept(&key(Target::Xing, "99865855")));
    assert!(!index.accept(&key(Target::Xing, "99865855")));
    assert!(!index.accept(&key(Target::Xing, "99865855")));
    assert!(index.accept(&key(Target::Xing, "12345")));
    assert!(!index.accept(&key(Target::Xing, "12345")));
}

#[test]
fn exactly_one_accept_per_distinct_key() {
    // repeats arriving interleaved, as from two workers racing
    let arrivals = ["a", "b", "a", "c", "b", "a", "c", "b"];
    let mut index = DedupIndex::new();
    let mut accepted = Vec::new();
    for id in arrivals {
        if index.accept(&key(Target::Linkedin, id)) {
            accepted.push(id);
        }
    }
    assert_eq!(accepted, vec!["a", "b", "c"]);
}

#[test]
fn same_identity_from_different_sources_is_different() {
    let mut index = DedupIndex::new();
    assert!(index.accept(&key(Target::Xing, "777")));
    assert!(index.accept(&key(Target::Linkedin, "777")));
    assert!(!index.accept(&key(Target::Xing, "777")));
}

#[test]
fn contains_reports_without_recording() {
    let mut index = DedupIndex::new();
    let k = key(Target::Instaffo, "uuid-1");
    assert!(!index.contains(&k));
    index.accept(&k);
    assert!(index.contains(&k));
    assert!(!index.contains(&key(Target::Instaffo, "uuid-2")));
}
