use rssq::data::merge::{ParsedEntry, ParsedFeed};
use rssq::data::{Feed, Group, Item};
use rssq::net::refresh::{Cycle, Step};
use rssq::net::{FetchError, Fetched, Request};

fn entry(id: &str, timestamp: i64) -> ParsedEntry {
    ParsedEntry {
        id: Some(id.to_string()),
        links: vec![],
        title: Some(id.to_string()),
        summary: None,
        published: Some(timestamp),
        updated: None,
    }
}

fn payload(ids: &[&str]) -> ParsedFeed {
    ParsedFeed {
        title: None,
        entries: ids.iter().enumerate().map(|(n, id)| entry(id, n as i64)).collect(),
    }
}

fn feed(url: &str) -> Feed {
    Feed { url: url.to_string(), title: url.to_string(), ..Feed::default() }
}

fn group(name: &str, feeds: Vec<Feed>) -> Group {
    Group { name: name.to_string(), feeds, unread_count: 0 }
}

fn fetched(ids: &[&str]) -> Result<Fetched, FetchError> {
    Ok(Fetched {
        etag: Some("\"new\"".to_string()),
        last_modified: None,
        payload: Some(payload(ids)),
    })
}

fn request(url: &str) -> Request {
    Request { url: url.to_string(), if_none_match: None, if_modified_since: None }
}

#[test]
fn request_of_a_feed_carries_its_validators() {
    let feed = Feed {
        etag: Some("\"v1\"".to_string()),
        last_modified: Some("yesterday".to_string()),
        ..feed("https://example.org/feed")
    };
    assert_eq!(
        feed.request(),
        Request {
            url: "https://example.org/feed".to_string(),
            if_none_match: Some("\"v1\"".to_string()),
            if_modified_since: Some("yesterday".to_string()),
        }
    );
    assert_eq!(self::feed("u").request(), request("u"));
}

#[test]
fn apply_merges_a_payload_and_stores_its_validators() {
    let mut feed = Feed {
        etag: Some("\"old\"".to_string()),
        last_modified: Some("then".to_string()),
        ..feed("u")
    };
    let gained = feed.apply(fetched(&["a", "b"]));
    assert_eq!(gained, 2);
    assert_eq!(feed.items.len(), 2);
    assert_eq!(feed.etag.as_deref(), Some("\"new\""));
    assert_eq!(feed.last_modified, None);
}

#[test]
fn apply_counts_only_growth() {
    let mut feed = feed("u");
    assert_eq!(feed.apply(fetched(&["a", "b", "c"])), 3);
    assert_eq!(feed.apply(fetched(&["a", "b", "c", "d"])), 1);
    assert_eq!(feed.apply(fetched(&["x", "y", "z", "w"])), 0);
    assert_eq!(feed.apply(fetched(&["a"])), 0);
    assert_eq!(feed.items.len(), 1);
}

#[test]
fn apply_leaves_the_feed_untouched_without_a_payload() {
    let mut feed = Feed { etag: Some("\"old\"".to_string()), ..feed("u") };
    let _ = feed.apply(fetched(&["a"]));
    feed.etag = Some("\"old\"".to_string());
    let before = feed.clone();
    let unchanged =
        Ok(Fetched { etag: Some("\"newer\"".to_string()), last_modified: None, payload: None });
    assert_eq!(feed.apply(unchanged), 0);
    assert_eq!(feed, before);
}

#[test]
fn apply_leaves_the_feed_untouched_after_a_failure() {
    let mut feed = feed("u");
    let _ = feed.apply(fetched(&["a"]));
    let before = feed.clone();
    for error in [FetchError::Network, FetchError::HttpStatus(500), FetchError::Parse] {
        assert_eq!(feed.apply(Err(error)), 0);
        assert_eq!(feed, before);
    }
}

#[test]
fn begin_stands_at_the_start() {
    assert_eq!(Cycle::begin(), Cycle { group: 0, feed: 0, new_items: 0 });
}

#[test]
fn cycle_over_no_groups_finishes_at_once() {
    let mut groups: Vec<Group> = vec![];
    let mut cycle = Cycle::begin();
    assert_eq!(cycle.advance(&mut groups), Step::Finished(0));
    assert!(!cycle.record(&mut groups, Err(FetchError::Network)));
    assert_eq!(cycle.advance(&mut groups), Step::Finished(0));
}

#[test]
fn cycle_visits_every_feed_in_order() {
    let mut groups = vec![
        group("one", vec![feed("a"), feed("b")]),
        group("empty", vec![]),
        group("two", vec![feed("c")]),
    ];
    let mut cycle = Cycle::begin();
    let mut asked = vec![];
    loop {
        match cycle.advance(&mut groups) {
            Step::Fetch(request) => {
                asked.push(request.url.clone());
                assert!(cycle.record(&mut groups, fetched(&[request.url.as_str()])));
            }
            Step::Finished(new_items) => {
                assert_eq!(new_items, 3);
                break;
            }
        }
    }
    assert_eq!(asked, vec!["a", "b", "c"]);
    let counts: Vec<usize> = groups.iter().map(|g| g.unread_count).collect();
    assert_eq!(counts, vec![2, 0, 1]);
    assert_eq!(groups[0].feeds[1].items[0].id, Item::gen_id(Some("b"), ""));
}

#[test]
fn cycle_skips_a_failed_feed_and_goes_on() {
    let mut groups = vec![group("one", vec![feed("a"), feed("b"), feed("c")])];
    groups[0].feeds[1].items.push(Item {
        id: "kept".to_string(),
        title: String::new(),
        link: String::new(),
        desc: String::new(),
        timestamp: 0,
        read: false,
        queued: false,
    });
    let mut cycle = Cycle::begin();
    assert_eq!(cycle.advance(&mut groups), Step::Fetch(request("a")));
    assert!(cycle.record(&mut groups, fetched(&["x"])));
    assert_eq!(cycle.advance(&mut groups), Step::Fetch(request("b")));
    assert!(cycle.record(&mut groups, Err(FetchError::HttpStatus(503))));
    assert_eq!(cycle.advance(&mut groups), Step::Fetch(request("c")));
    assert!(cycle.record(&mut groups, Err(FetchError::Parse)));
    assert_eq!(cycle.advance(&mut groups), Step::Finished(1));
    assert_eq!(groups[0].feeds[1].items.len(), 1);
    assert_eq!(groups[0].feeds[1].items[0].id, "kept");
    assert_eq!(groups[0].unread_count, 2);
}

#[test]
fn advance_does_not_move_while_a_feed_waits() {
    let mut groups = vec![group("one", vec![feed("a")])];
    let mut cycle = Cycle::begin();
    assert_eq!(cycle.advance(&mut groups), Step::Fetch(request("a")));
    assert_eq!(cycle.advance(&mut groups), Step::Fetch(request("a")));
    assert_eq!(cycle, Cycle { group: 0, feed: 0, new_items: 0 });
}

#[test]
fn advance_recounts_each_group_it_leaves() {
    let mut groups = vec![group("one", vec![feed("a")]), group("two", vec![feed("b")])];
    groups[0].unread_count = 99;
    groups[1].unread_count = 99;
    let mut cycle = Cycle::begin();
    let _ = cycle.advance(&mut groups);
    assert!(cycle.record(&mut groups, fetched(&["x", "y"])));
    assert_eq!(groups[0].unread_count, 99);
    let _ = cycle.advance(&mut groups);
    assert_eq!(groups[0].unread_count, 2);
    assert_eq!(groups[1].unread_count, 99);
    assert_eq!(cycle, Cycle { group: 1, feed: 0, new_items: 2 });
}

#[test]
fn record_without_a_feed_changes_nothing() {
    let mut groups = vec![group("one", vec![])];
    let before = groups.clone();
    let mut cycle = Cycle { group: 0, feed: 0, new_items: 5 };
    assert!(!cycle.record(&mut groups, fetched(&["a"])));
    assert_eq!(groups, before);
    assert_eq!(cycle, Cycle { group: 0, feed: 0, new_items: 5 });
    let mut beyond = Cycle { group: 7, feed: 0, new_items: 5 };
    assert!(!beyond.record(&mut groups, fetched(&["a"])));
    assert_eq!(beyond.advance(&mut groups), Step::Finished(5));
}

#[test]
fn update_unread_counts_unread_items_of_all_feeds() {
    let item = |read: bool| Item {
        id: String::new(),
        title: String::new(),
        link: String::new(),
        desc: String::new(),
        timestamp: 0,
        read,
        queued: false,
    };
    let mut group = group(
        "g",
        vec![
            Feed { items: vec![item(false), item(true), item(false)], ..feed("a") },
            Feed { items: vec![], ..feed("b") },
            Feed { items: vec![item(true), item(false)], ..feed("c") },
        ],
    );
    group.unread_count = 42;
    group.update_unread();
    assert_eq!(group.unread_count, 3);
    assert_eq!(group.name, "g");
    assert_eq!(group.feeds.len(), 3);
}
