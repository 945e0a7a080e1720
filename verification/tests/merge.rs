use rssq::data::merge::{ParsedEntry, ParsedFeed};
use rssq::data::order::sort_newest_first;
use rssq::data::{Feed, Item};

fn entry(id: &str, link: &str, title: &str, published: Option<i64>) -> ParsedEntry {
    ParsedEntry {
        id: Some(id.to_string()),
        links: vec![link.to_string()],
        title: Some(title.to_string()),
        summary: Some(format!("about {title}")),
        published,
        updated: None,
    }
}

fn payload(entries: Vec<ParsedEntry>) -> ParsedFeed {
    ParsedFeed { title: None, entries }
}

fn item(id: &str, timestamp: i64, read: bool, queued: bool) -> Item {
    Item {
        id: id.to_string(),
        title: format!("old {id}"),
        link: format!("old://{id}"),
        desc: String::new(),
        timestamp,
        read,
        queued,
    }
}

fn ids(feed: &Feed) -> Vec<String> {
    feed.items.iter().map(|i| i.id.clone()).collect()
}

#[test]
fn merge_fills_an_empty_feed() {
    let mut feed = Feed::default();
    feed.merge_items(payload(vec![entry("a", "l/a", "A", Some(100))]));
    assert_eq!(
        feed.items,
        vec![Item {
            id: Item::gen_id(Some("a"), "l/a"),
            title: "A".to_string(),
            link: "l/a".to_string(),
            desc: "about A".to_string(),
            timestamp: 100,
            read: false,
            queued: false,
        }]
    );
}

#[test]
fn merge_replaces_the_title_only_when_the_payload_has_one() {
    let mut feed = Feed { title: "before".to_string(), ..Feed::default() };
    feed.merge_items(ParsedFeed { title: None, entries: vec![] });
    assert_eq!(feed.title, "before");
    feed.merge_items(ParsedFeed { title: Some("after".to_string()), entries: vec![] });
    assert_eq!(feed.title, "after");
}

#[test]
fn merge_leaves_address_and_validators_alone() {
    let mut feed = Feed {
        url: "https://example.org/feed".to_string(),
        etag: Some("\"v1\"".to_string()),
        last_modified: Some("Tue, 01 Jan 2030 00:00:00 GMT".to_string()),
        ..Feed::default()
    };
    feed.merge_items(payload(vec![entry("a", "l/a", "A", Some(1))]));
    assert_eq!(feed.url, "https://example.org/feed");
    assert_eq!(feed.etag.as_deref(), Some("\"v1\""));
    assert_eq!(feed.last_modified.as_deref(), Some("Tue, 01 Jan 2030 00:00:00 GMT"));
}

#[test]
fn merge_sorts_newest_first() {
    let mut feed = Feed::default();
    feed.merge_items(payload(vec![
        entry("a", "l/a", "A", Some(100)),
        entry("b", "l/b", "B", Some(300)),
        entry("c", "l/c", "C", Some(200)),
        entry("d", "l/d", "D", Some(-5)),
    ]));
    let times: Vec<i64> = feed.items.iter().map(|i| i.timestamp).collect();
    assert_eq!(times, vec![300, 200, 100, -5]);
    for pair in feed.items.windows(2) {
        assert!(pair[0].timestamp >= pair[1].timestamp);
    }
}

#[test]
fn merge_keeps_the_payload_order_among_equal_times() {
    let mut feed = Feed::default();
    feed.merge_items(payload(vec![
        entry("x", "l/x", "X", Some(7)),
        entry("y", "l/y", "Y", Some(9)),
        entry("z", "l/z", "Z", Some(7)),
        entry("w", "l/w", "W", Some(7)),
    ]));
    let titles: Vec<&str> = feed.items.iter().map(|i| i.title.as_str()).collect();
    assert_eq!(titles, vec!["Y", "X", "Z", "W"]);
}

#[test]
fn merge_takes_the_time_from_published_then_updated_then_zero() {
    let mut feed = Feed::default();
    feed.merge_items(payload(vec![
        ParsedEntry { published: Some(5), updated: Some(50), ..entry("p", "l/p", "P", None) },
        ParsedEntry { published: None, updated: Some(50), ..entry("u", "l/u", "U", None) },
        ParsedEntry { published: None, updated: None, ..entry("n", "l/n", "N", None) },
    ]));
    let seen: Vec<(&str, i64)> =
        feed.items.iter().map(|i| (i.title.as_str(), i.timestamp)).collect();
    assert_eq!(seen, vec![("U", 50), ("P", 5), ("N", 0)]);
}

#[test]
fn merge_uses_empty_text_for_what_an_entry_lacks() {
    let mut feed = Feed::default();
    feed.merge_items(payload(vec![ParsedEntry {
        id: None,
        links: vec![],
        title: None,
        summary: None,
        published: None,
        updated: None,
    }]));
    assert_eq!(
        feed.items,
        vec![Item {
            id: Item::gen_id(None, ""),
            title: String::new(),
            link: String::new(),
            desc: String::new(),
            timestamp: 0,
            read: false,
            queued: false,
        }]
    );
}

#[test]
fn merge_takes_the_first_link() {
    let mut feed = Feed::default();
    feed.merge_items(payload(vec![ParsedEntry {
        id: None,
        links: vec!["first".to_string(), "second".to_string(), "third".to_string()],
        ..entry("", "", "T", Some(1))
    }]));
    assert_eq!(feed.items[0].link, "first");
    assert_eq!(feed.items[0].id, Item::gen_id(None, "first"));
}

#[test]
fn merge_preserves_flags_and_replaces_content() {
    let known = Item::gen_id(Some("a"), "l/a");
    let mut feed = Feed {
        items: vec![Item { read: true, queued: true, ..item(&known, 1, true, true) }],
        ..Feed::default()
    };
    feed.merge_items(payload(vec![entry("a", "l/a2", "new title", Some(500))]));
    assert_eq!(
        feed.items,
        vec![Item {
            id: known,
            title: "new title".to_string(),
            link: "l/a2".to_string(),
            desc: "about new title".to_string(),
            timestamp: 500,
            read: true,
            queued: true,
        }]
    );
}

#[test]
fn merge_preserves_each_flag_on_its_own() {
    let a = Item::gen_id(Some("a"), "");
    let b = Item::gen_id(Some("b"), "");
    let mut feed = Feed {
        items: vec![item(&a, 2, true, false), item(&b, 1, false, true)],
        ..Feed::default()
    };
    feed.merge_items(payload(vec![entry("b", "", "B", Some(20)), entry("a", "", "A", Some(10))]));
    let flags: Vec<(&str, bool, bool)> =
        feed.items.iter().map(|i| (i.title.as_str(), i.read, i.queued)).collect();
    assert_eq!(flags, vec![("B", false, true), ("A", true, false)]);
}

#[test]
fn merge_drops_items_that_the_payload_lacks() {
    let a = Item::gen_id(Some("a"), "");
    let gone = Item::gen_id(Some("gone"), "");
    let mut feed = Feed {
        items: vec![item(&gone, 9, true, true), item(&a, 1, false, false)],
        ..Feed::default()
    };
    feed.merge_items(payload(vec![entry("a", "", "A", Some(1))]));
    assert_eq!(ids(&feed), vec![a]);
    assert!(feed.items.iter().all(|i| i.id != gone));
}

#[test]
fn merge_with_an_empty_payload_empties_the_feed() {
    let mut feed = Feed { items: vec![item("x", 1, true, false)], ..Feed::default() };
    feed.merge_items(payload(vec![]));
    assert!(feed.items.is_empty());
}

#[test]
fn merge_is_idempotent() {
    let entries = || {
        vec![
            entry("a", "l/a", "A", Some(100)),
            entry("b", "l/b", "B", Some(200)),
            entry("c", "l/c", "C", Some(200)),
            entry("a", "l/a", "A again", Some(150)),
        ]
    };
    let mut feed = Feed {
        items: vec![item(&Item::gen_id(Some("b"), "l/b"), 0, true, true)],
        ..Feed::default()
    };
    feed.merge_items(payload(entries()));
    let once = feed.clone();
    feed.merge_items(payload(entries()));
    assert_eq!(feed, once);
    assert_eq!(ids(&feed), ids(&once));
    assert_eq!(feed.items.len(), 4);
}

#[test]
fn merge_takes_the_flags_of_the_last_stored_item_of_an_identity() {
    let a = Item::gen_id(Some("a"), "");
    let mut feed = Feed {
        items: vec![item(&a, 3, true, true), item(&a, 2, false, true), item(&a, 1, true, false)],
        ..Feed::default()
    };
    feed.merge_items(payload(vec![entry("a", "", "A", Some(1))]));
    assert_eq!((feed.items[0].read, feed.items[0].queued), (true, false));
}

#[test]
fn sort_newest_first_is_stable() {
    let sorted = sort_newest_first(vec![
        item("a", 1, false, false),
        item("b", 3, false, false),
        item("c", 1, false, false),
        item("d", 2, false, false),
        item("e", 3, false, false),
    ]);
    let order: Vec<&str> = sorted.iter().map(|i| i.id.as_str()).collect();
    assert_eq!(order, vec!["b", "e", "d", "a", "c"]);
}

#[test]
fn sort_newest_first_handles_the_extremes() {
    let sorted = sort_newest_first(vec![
        item("min", i64::MIN, false, false),
        item("zero", 0, false, false),
        item("max", i64::MAX, false, false),
    ]);
    let order: Vec<&str> = sorted.iter().map(|i| i.id.as_str()).collect();
    assert_eq!(order, vec!["max", "zero", "min"]);
    assert!(sort_newest_first(vec![]).is_empty());
}
