use newspenguin_bot::instant::Instant;
use newspenguin_bot::kv::KvStore;
use newspenguin_bot::posted::{
    is_stale_link, last_run_key_string, link_recorded, posted_links_key_string, stale_link_keys,
};

fn pair(k: &str, v: &str) -> (String, String) {
    (k.to_string(), v.to_string())
}

fn strings(vs: &[&str]) -> Vec<String> {
    vs.iter().map(|v| v.to_string()).collect()
}

#[test]
fn read_after_write_gives_the_value() {
    let mut store = KvStore::new();
    assert_eq!(store.get("a"), None);
    assert!(store.values("a").is_empty());
    store.set("a".to_string(), "1".to_string());
    store.set("b".to_string(), "2".to_string());
    assert_eq!(store.get("a").as_deref(), Some("1"));
    assert_eq!(store.get("b").as_deref(), Some("2"));
    assert_eq!(store.len(), 2);
}

#[test]
fn writing_again_keeps_earlier_values_and_reads_the_latest() {
    let mut store = KvStore::new();
    store.set("posted link".to_string(), "https://a/1".to_string());
    store.set("posted link".to_string(), "https://a/2".to_string());
    assert_eq!(store.get("posted link").as_deref(), Some("https://a/2"));
    assert_eq!(store.values("posted link"), strings(&["https://a/1", "https://a/2"]));
    assert_eq!(store.len(), 1);
}

#[test]
fn removing_leaves_the_other_keys() {
    let mut store = KvStore::new();
    store.set("a".to_string(), "1".to_string());
    store.set("a".to_string(), "4".to_string());
    store.set("b".to_string(), "2".to_string());
    store.remove("a");
    store.remove("missing");
    assert_eq!(store.get("a"), None);
    assert!(store.values("a").is_empty());
    assert_eq!(store.get("b").as_deref(), Some("2"));
    assert_eq!(store.len(), 1);
}

#[test]
fn from_pairs_writes_in_order() {
    let store = KvStore::from_pairs(&vec![pair("a", "1"), pair("b", "2"), pair("a", "3")]);
    assert_eq!(store.get("a").as_deref(), Some("3"));
    assert_eq!(store.values("a"), strings(&["1", "3"]));
    let mut entries = store.entries();
    entries.sort();
    assert_eq!(entries, vec![pair("a", "3"), pair("b", "2")]);
}

#[test]
fn groups_round_trip_keeps_every_value() {
    let groups = vec![
        ("posted link".to_string(), strings(&["https://a/1", "https://a/2"])),
        ("newspenguin-rss.last_build_date".to_string(), strings(&["2024-05-01 12:00:00"])),
    ];
    let store = KvStore::from_groups(&groups);
    assert_eq!(store.values("posted link"), strings(&["https://a/1", "https://a/2"]));
    let mut saved = store.groups();
    saved.sort();
    let mut expected = groups.clone();
    expected.sort();
    assert_eq!(saved, expected);
    let again = KvStore::from_groups(&store.groups());
    assert_eq!(again.values("posted link"), strings(&["https://a/1", "https://a/2"]));
    assert_eq!(again.len(), 2);
}

#[test]
fn posted_links_and_the_run_key() {
    assert_eq!(posted_links_key_string(), "posted link");
    assert_eq!(last_run_key_string(), "newspenguin-rss.last_build_date");
    let links = strings(&["https://a/1", "https://a/2"]);
    assert!(link_recorded(&links, &"https://a/2".to_string()));
    assert!(!link_recorded(&links, &"https://a/3".to_string()));
    assert!(!link_recorded(&vec![], &"https://a/1".to_string()));
}

#[test]
fn stale_links_are_old_link_entries() {
    let cutoff = Instant { secs: 1713960000, nanos: 0 };
    let entries = vec![
        pair("link:a", "2024-04-20T00:00:00+00:00"),
        pair("link:b", "2024-04-30T00:00:00+00:00"),
        pair("other", "2024-01-01T00:00:00+00:00"),
        pair("posted link", "2024-01-01T00:00:00+00:00"),
        pair("link:c", "garbage"),
        pair("link:d", "2024-04-24T11:59:59+00:00"),
        pair("link:e", "2024-04-24T12:00:00+00:00"),
    ];
    assert_eq!(stale_link_keys(&entries, &cutoff), vec!["link:a".to_string(), "link:d".to_string()]);
    assert!(!is_stale_link("other", Some(Instant { secs: 0, nanos: 0 }), &cutoff));
    assert!(is_stale_link("link:x", Some(Instant { secs: 0, nanos: 0 }), &cutoff));
    assert!(!is_stale_link("link:x", None, &cutoff));
}
