use scrape::fingerprint::fingerprint;
use scrape::hash_comparison::{drop_unchanged_diffs, is_changed};
use scrape::item::{Currency, Item, ItemState};
use scrape::snapshot::{ItemEventHash, Snapshot};

fn record(id: &str, state: ItemState, price: Option<u64>, currency: Option<Currency>, url: &str) -> Item {
    Item::new(
        id.to_string(),
        String::new(),
        None,
        None,
        None,
        None,
        price,
        price,
        currency,
        None,
        state,
        url.to_string(),
        None,
    )
}

fn make_items_diffs() -> Vec<Item> {
    vec![
        record("foo#bar", ItemState::SOLD, None, None, "https://foo.com/item=bar"),
        record("foo#baz", ItemState::AVAILABLE, Some(4200), Some(Currency::EUR), "https://foo.com/item=baz"),
    ]
}

fn hash_of(state: ItemState, price: Option<u64>, currency: Option<Currency>, url: &str) -> String {
    fingerprint(Some(state), currency, price, price, Some(url))
}

fn snapshot_of(entries: Vec<(&str, String)>) -> Snapshot {
    let mut s = Snapshot::new();
    for (id, h) in entries {
        s.insert(id.to_string(), h);
    }
    s
}

#[test]
fn should_not_drop_any_diffs_when_all_latest_hashes_differ() {
    let expected: Vec<Item> = make_items_diffs();
    let mut actual: Vec<Item> = expected.clone();
    let hashes = snapshot_of(vec![(
        "foo#bar",
        hash_of(ItemState::AVAILABLE, Some(4200), Some(Currency::EUR), "https://foo.com/item=bar"),
    )]);

    drop_unchanged_diffs(&mut actual, &hashes);

    assert_eq!(expected, actual);
}

#[test]
fn should_drop_all_diffs_when_all_latest_hashes_match() {
    let mut actual: Vec<Item> = make_items_diffs();
    let hashes = snapshot_of(vec![
        ("foo#bar", hash_of(ItemState::SOLD, None, None, "https://foo.com/item=bar")),
        (
            "foo#baz",
            hash_of(ItemState::AVAILABLE, Some(4200), Some(Currency::EUR), "https://foo.com/item=baz"),
        ),
    ]);

    drop_unchanged_diffs(&mut actual, &hashes);

    assert!(actual.is_empty());
}

#[test]
fn should_retain_only_actual_diffs() {
    let mut actual: Vec<Item> = make_items_diffs();
    let hashes = snapshot_of(vec![
        (
            "foo#bar",
            hash_of(ItemState::AVAILABLE, Some(4200), Some(Currency::EUR), "https://foo.com/item=bar"),
        ),
        (
            "foo#baz",
            hash_of(ItemState::AVAILABLE, Some(4200), Some(Currency::EUR), "https://foo.com/item=baz"),
        ),
    ]);

    drop_unchanged_diffs(&mut actual, &hashes);

    let expected = vec![record("foo#bar", ItemState::SOLD, None, None, "https://foo.com/item=bar")];
    assert_eq!(expected, actual);
}

#[test]
fn fingerprint_renders_every_field() {
    let f = fingerprint(
        Some(ItemState::AVAILABLE),
        Some(Currency::EUR),
        Some(4200),
        None,
        Some("https://foo.com/item=baz"),
    );
    assert_eq!(f, "AVAILABLE|EUR|4200|-|https://foo.com/item=baz");
}

#[test]
fn fingerprint_of_all_absent_fields() {
    assert_eq!(fingerprint(None, None, None, None, None), "-|-|-|-|-");
}

#[test]
fn fingerprint_of_zero_and_large_prices() {
    let f = fingerprint(Some(ItemState::SOLD), Some(Currency::GBP), Some(0), Some(u64::MAX), Some(""));
    assert_eq!(f, "SOLD|GBP|0|18446744073709551615|");
}

#[test]
fn item_fingerprint_ignores_name_and_description() {
    let a = record("x", ItemState::RESERVED, Some(10), Some(Currency::USD), "https://x");
    let mut b = a.clone();
    b.name = "renamed".to_string();
    b.description = Some("new text".to_string());
    assert_eq!(a.fingerprint(), b.fingerprint());
    assert_eq!(a.fingerprint(), "RESERVED|USD|10|10|https://x");
}

#[test]
fn item_fingerprint_changes_with_price() {
    let a = record("x", ItemState::AVAILABLE, Some(10), Some(Currency::USD), "https://x");
    let b = record("x", ItemState::AVAILABLE, Some(11), Some(Currency::USD), "https://x");
    assert_ne!(a.fingerprint(), b.fingerprint());
}

#[test]
fn unchanged_record_is_dropped_on_second_run() {
    let first = record("x", ItemState::AVAILABLE, Some(500), Some(Currency::EUR), "https://x");
    let events = vec![ItemEventHash { item_id: "x".to_string(), hash: first.fingerprint() }];
    let snapshot = Snapshot::from_events(&events);
    let mut second = first.clone();
    second.description = Some("only the text changed".to_string());
    assert!(!is_changed(&second, &snapshot));
    let mut diffs = vec![second];
    drop_unchanged_diffs(&mut diffs, &snapshot);
    assert!(diffs.is_empty());
}

#[test]
fn unseen_record_is_always_kept() {
    let seen = record("seen", ItemState::SOLD, None, None, "https://s");
    let unseen = record("unseen", ItemState::SOLD, None, None, "https://s");
    let snapshot = snapshot_of(vec![("seen", seen.fingerprint())]);
    let mut diffs = vec![seen, unseen.clone()];
    drop_unchanged_diffs(&mut diffs, &snapshot);
    assert_eq!(diffs, vec![unseen]);
}

#[test]
fn detector_keeps_order_of_changes() {
    let a = record("a", ItemState::LISTED, None, None, "https://a");
    let b = record("b", ItemState::LISTED, None, None, "https://b");
    let c = record("c", ItemState::LISTED, None, None, "https://c");
    let snapshot = snapshot_of(vec![("b", b.fingerprint()), ("c", "stale".to_string())]);
    let mut diffs = vec![a.clone(), b, c.clone()];
    drop_unchanged_diffs(&mut diffs, &snapshot);
    assert_eq!(diffs, vec![a, c]);
}

#[test]
fn detector_on_empty_input() {
    let mut diffs: Vec<Item> = vec![];
    drop_unchanged_diffs(&mut diffs, &Snapshot::new());
    assert!(diffs.is_empty());
}

#[test]
fn snapshot_keeps_most_recent_fingerprint() {
    let events = vec![
        ItemEventHash { item_id: "x".to_string(), hash: "old".to_string() },
        ItemEventHash { item_id: "y".to_string(), hash: "only".to_string() },
        ItemEventHash { item_id: "x".to_string(), hash: "new".to_string() },
    ];
    let snapshot = Snapshot::from_events(&events);
    assert_eq!(snapshot.len(), 2);
    assert_eq!(snapshot.get(&"x".to_string()), Some(&"new".to_string()));
    assert_eq!(snapshot.get(&"y".to_string()), Some(&"only".to_string()));
    assert_eq!(snapshot.get(&"z".to_string()), None);
}

#[test]
fn snapshot_latest_governs_comparison() {
    let item = record("x", ItemState::SOLD, None, None, "https://x");
    let events = vec![
        ItemEventHash { item_id: "x".to_string(), hash: item.fingerprint() },
        ItemEventHash { item_id: "x".to_string(), hash: "older state".to_string() },
    ];
    let snapshot = Snapshot::from_events(&events);
    assert!(is_changed(&item, &snapshot));
    let reordered = vec![events[1].clone(), events[0].clone()];
    assert!(!is_changed(&item, &Snapshot::from_events(&reordered)));
}

#[test]
fn snapshot_insert_replaces() {
    let mut s = Snapshot::new();
    assert_eq!(s.len(), 0);
    s.insert("a".to_string(), "1".to_string());
    s.insert("a".to_string(), "2".to_string());
    assert_eq!(s.len(), 1);
    assert_eq!(s.get(&"a".to_string()), Some(&"2".to_string()));
}
