use rssq::data::merge::{ParsedEntry, ParsedFeed};
use rssq::data::{Feed, Group, Item};
use rssq::net::refresh::Cycle;
use rssq::net::{interpret, Reading, Response};

fn entry(id: &str, timestamp: i64) -> ParsedEntry {
    ParsedEntry {
        id: Some(id.to_string()),
        links: vec![format!("https://example.org/{id}")],
        title: Some(id.to_string()),
        summary: None,
        published: Some(timestamp),
        updated: None,
    }
}

fn both() -> ParsedFeed {
    ParsedFeed { title: None, entries: vec![entry("a", 100), entry("b", 200)] }
}

fn id_of(id: &str) -> String {
    Item::gen_id(Some(id), &format!("https://example.org/{id}"))
}

fn after_first_merge() -> Group {
    let mut group = Group { name: "news".to_string(), feeds: vec![Feed::default()], unread_count: 0 };
    group.feeds[0].merge_items(both());
    group.update_unread();
    group
}

fn after_second_merge() -> Group {
    let mut group = after_first_merge();
    let a = id_of("a");
    for item in group.feeds[0].items.iter_mut() {
        if item.id == a {
            item.read = true;
        }
    }
    group.update_unread();
    assert_eq!(group.unread_count, 1);
    group.feeds[0].merge_items(both());
    group.update_unread();
    group
}

fn after_third_merge() -> Group {
    let mut group = after_second_merge();
    group.feeds[0].merge_items(ParsedFeed { title: None, entries: vec![entry("b", 200)] });
    group.update_unread();
    group
}

#[test]
fn first_merge_sorts_and_counts() {
    let group = after_first_merge();
    let ids: Vec<String> = group.feeds[0].items.iter().map(|i| i.id.clone()).collect();
    assert_eq!(ids, vec![id_of("b"), id_of("a")]);
    assert_eq!(group.unread_count, 2);
}

#[test]
fn read_flag_survives_a_second_merge() {
    let group = after_second_merge();
    let seen: Vec<(String, bool)> =
        group.feeds[0].items.iter().map(|i| (i.id.clone(), i.read)).collect();
    assert_eq!(seen, vec![(id_of("b"), false), (id_of("a"), true)]);
    assert_eq!(group.unread_count, 1);
}

#[test]
fn absent_entry_disappears() {
    let group = after_third_merge();
    let ids: Vec<String> = group.feeds[0].items.iter().map(|i| i.id.clone()).collect();
    assert_eq!(ids, vec![id_of("b")]);
    assert_eq!(group.unread_count, 1);
}

#[test]
fn not_modified_changes_nothing() {
    let mut groups = vec![after_third_merge()];
    groups[0].feeds[0].etag = Some("\"v3\"".to_string());
    let before = groups.clone();

    let mut cycle = Cycle::begin();
    let _ = cycle.advance(&mut groups);
    let response = Response { status: 304, etag: None, last_modified: None, body: vec![] };
    let outcome = match interpret(response, Some("\"v3\""), None) {
        Reading::Settled(outcome) => outcome,
        Reading::Unparsed(_) => panic!("a 304 has no body to parse"),
    };
    assert!(matches!(&outcome, Ok(fetched) if fetched.payload.is_none()));
    assert!(cycle.record(&mut groups, outcome));
    let _ = cycle.advance(&mut groups);

    assert_eq!(groups, before);
    assert_eq!(groups[0].feeds[0].items.len(), 1);
    assert_eq!(cycle.new_items, 0);
}
