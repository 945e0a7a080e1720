use rssq::config::{Config, Platform};
use rssq::data::{Feed, Group, Item};
use rssq::tui::{
    mark_feed_read, mark_group_read, open_unread_feed, open_unread_group, AppState, Pane,
};

fn item(id: &str, read: bool, queued: bool) -> Item {
    Item {
        id: id.to_string(),
        title: id.to_string(),
        link: format!("link/{id}"),
        desc: String::new(),
        timestamp: 0,
        read,
        queued,
    }
}

fn feed(items: Vec<Item>) -> Feed {
    Feed {
        url: "u".to_string(),
        title: "t".to_string(),
        items,
        etag: Some("e".to_string()),
        last_modified: None,
    }
}

#[test]
fn a_session_starts_on_the_groups() {
    let app = AppState::new(Config::for_platform(Platform::Other));
    assert_eq!(
        app,
        AppState {
            focus: Pane::Groups,
            queue: vec![],
            search: String::new(),
            show_help: false,
            config: Config::for_platform(Platform::Other),
            selected_group: 0,
            selected_feed: 0,
            selected_item: 0,
            last_refresh: None,
            new_items: 0,
        }
    );
    assert_eq!(Pane::default(), Pane::Groups);
}

#[test]
fn panes_follow_each_other() {
    assert_eq!(Pane::Groups.next(), Pane::Feeds);
    assert_eq!(Pane::Feeds.next(), Pane::Items);
    assert_eq!(Pane::Items.next(), Pane::Preview);
    assert_eq!(Pane::Preview.next(), Pane::Groups);
    assert_eq!(Pane::Queue.next(), Pane::Queue);
    assert_eq!(Pane::Groups.previous(), Pane::Preview);
    assert_eq!(Pane::Feeds.previous(), Pane::Groups);
    assert_eq!(Pane::Items.previous(), Pane::Feeds);
    assert_eq!(Pane::Preview.previous(), Pane::Items);
    assert_eq!(Pane::Queue.previous(), Pane::Queue);
    for pane in [Pane::Groups, Pane::Feeds, Pane::Items, Pane::Preview, Pane::Queue] {
        assert_eq!(pane.next().previous(), pane);
        assert_eq!(pane.previous().next(), pane);
    }
}

#[test]
fn note_refresh_keeps_time_and_count() {
    let mut app = AppState::new(Config::for_platform(Platform::Other));
    app.selected_item = 3;
    app.note_refresh(1700000000, 9);
    assert_eq!(app.last_refresh, Some(1700000000));
    assert_eq!(app.new_items, 9);
    assert_eq!(app.selected_item, 3);
}

#[test]
fn mark_feed_read_marks_every_item() {
    let mut f = feed(vec![item("a", false, true), item("b", true, false), item("c", false, false)]);
    mark_feed_read(&mut f);
    assert_eq!(
        f,
        feed(vec![item("a", true, true), item("b", true, false), item("c", true, false)])
    );
    let mut empty = feed(vec![]);
    mark_feed_read(&mut empty);
    assert_eq!(empty, feed(vec![]));
}

#[test]
fn mark_group_read_marks_and_recounts() {
    let mut group = Group {
        name: "g".to_string(),
        feeds: vec![feed(vec![item("a", false, false)]), feed(vec![]), feed(vec![item("b", false, true)])],
        unread_count: 2,
    };
    mark_group_read(&mut group);
    assert_eq!(
        group,
        Group {
            name: "g".to_string(),
            feeds: vec![feed(vec![item("a", true, false)]), feed(vec![]), feed(vec![item("b", true, true)])],
            unread_count: 0,
        }
    );
}

#[test]
fn open_unread_feed_returns_the_unread_links_in_order() {
    let mut f = feed(vec![item("a", false, false), item("b", true, false), item("c", false, true)]);
    assert_eq!(open_unread_feed(&mut f), vec!["link/a", "link/c"]);
    assert!(f.items.iter().all(|i| i.read));
    assert!(f.items[2].queued);
    assert_eq!(open_unread_feed(&mut f), Vec::<String>::new());
}

#[test]
fn open_unread_group_goes_feed_by_feed() {
    let mut group = Group {
        name: "g".to_string(),
        feeds: vec![
            feed(vec![item("a", true, false), item("b", false, false)]),
            feed(vec![item("c", false, false), item("d", false, false)]),
        ],
        unread_count: 3,
    };
    assert_eq!(open_unread_group(&mut group), vec!["link/b", "link/c", "link/d"]);
    assert_eq!(group.unread_count, 0);
    assert!(group.feeds.iter().all(|f| f.items.iter().all(|i| i.read)));
}
