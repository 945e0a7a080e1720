use rssq::config::{Config, Platform};
use rssq::data::{Feed, Group, Item};
use rssq::tui::screen::{
    centered, compose_line, compose_status, help_text, highlight, keybind_line, line_of, screen,
    status_text, Screen,
};
use rssq::tui::{AppState, Pane};

fn item(title: &str, timestamp: i64, read: bool) -> Item {
    Item {
        id: title.to_string(),
        title: title.to_string(),
        link: format!("link/{title}"),
        desc: format!("about {title}"),
        timestamp,
        read,
        queued: false,
    }
}

fn strings(list: &[&str]) -> Vec<String> {
    list.iter().map(|s| s.to_string()).collect()
}

#[test]
fn item_line_shows_mark_time_and_title() {
    assert_eq!(line_of(&item("First", 1071340202, false)), "\u{25cf} 12-13 18:30 First");
    assert_eq!(line_of(&item("Read", 0, true)), "  01-01 00:00 Read");
    assert_eq!(line_of(&item("", 86399, true)), "  01-01 23:59 ");
    assert_eq!(line_of(&item("Before", -1, false)), "\u{25cf} 12-31 23:59 Before");
}

#[test]
fn item_line_writes_the_epoch_for_a_time_beyond_the_calendar() {
    assert_eq!(line_of(&item("Far", i64::MAX, true)), "  01-01 00:00 Far");
    assert_eq!(line_of(&item("Far", i64::MIN, true)), "  01-01 00:00 Far");
}

#[test]
fn status_line_tells_the_last_refresh() {
    assert_eq!(status_text(None, 0), "last refresh: never | new items: 0");
    assert_eq!(status_text(Some(1071340202), 12), "last refresh: 18:30:02 | new items: 12");
    assert_eq!(status_text(Some(0), 1), "last refresh: 00:00:00 | new items: 1");
}

#[test]
fn keybind_line_for_the_groups() {
    assert_eq!(
        keybind_line(Pane::Groups, true),
        "Tab:Next pane | BackTab:Prev pane | u:Show all | Ctrl+f:Search | ?:Help | Q:Queue | \
         q:Quit | a:Add group | d:Del group | r:Rename | A:Mark read | O:Open unread"
    );
}

#[test]
fn keybind_line_for_the_feeds() {
    assert_eq!(
        keybind_line(Pane::Feeds, false),
        "Tab:Next pane | BackTab:Prev pane | u:Unread only | Ctrl+f:Search | ?:Help | Q:Queue | \
         q:Quit | a:Add feed | d:Del feed | A:Mark read | O:Open unread"
    );
}

#[test]
fn keybind_line_for_the_items() {
    assert_eq!(
        keybind_line(Pane::Items, true),
        "Tab:Next pane | BackTab:Prev pane | u:Show all | Ctrl+f:Search | ?:Help | Q:Queue | \
         Enter:Open | Space:Toggle read | m:Mark read | M:Mark unread | q:Queue | Delete:Dequeue"
    );
}

#[test]
fn keybind_line_for_preview_and_queue() {
    assert_eq!(
        keybind_line(Pane::Preview, true),
        "Tab:Next pane | BackTab:Prev pane | u:Show all | Ctrl+f:Search | ?:Help | Q:Queue | q:Quit"
    );
    assert_eq!(
        keybind_line(Pane::Queue, true),
        "Tab:Next pane | BackTab:Prev pane | u:Show all | Ctrl+f:Search | ?:Help | Q:Queue | \
         Enter:Open all | Esc/q:Close"
    );
}

#[test]
fn help_has_six_lines() {
    assert_eq!(
        help_text(),
        strings(&[
            "?: Toggle help",
            "q: Quit",
            "Tab/BackTab: Switch panes",
            "Ctrl+f: Search",
            "Q: Queue",
            "u: Toggle unread only",
        ])
    );
}

#[test]
fn highlight_falls_back_to_the_last_line() {
    assert_eq!(highlight(0, 0), None);
    assert_eq!(highlight(5, 0), None);
    assert_eq!(highlight(0, 3), Some(0));
    assert_eq!(highlight(2, 3), Some(2));
    assert_eq!(highlight(3, 3), Some(2));
    assert_eq!(highlight(usize::MAX, 1), Some(0));
}

#[test]
fn centered_splits_a_side_in_three() {
    assert_eq!(centered(60), (20, 60, 20));
    assert_eq!(centered(40), (30, 40, 30));
    assert_eq!(centered(100), (0, 100, 0));
    assert_eq!(centered(0), (50, 0, 50));
    assert_eq!(centered(55), (22, 55, 22));
}

fn groups() -> Vec<Group> {
    vec![
        Group {
            name: "news".to_string(),
            feeds: vec![
                Feed {
                    title: "Daily".to_string(),
                    items: vec![item("old", 60, false), item("seen", 120, true), item("new", 180, false)],
                    ..Feed::default()
                },
                Feed { title: "Weekly".to_string(), ..Feed::default() },
            ],
            unread_count: 2,
        },
        Group { name: "blogs".to_string(), feeds: vec![], unread_count: 0 },
    ]
}

#[test]
fn screen_of_a_fresh_session() {
    let app = AppState::new(Config::for_platform(Platform::Other));
    assert_eq!(
        screen(&app, &groups()),
        Screen {
            groups: strings(&["news", "blogs"]),
            group_selected: Some(0),
            feeds: strings(&["Daily", "Weekly"]),
            feed_selected: Some(0),
            items: strings(&["\u{25cf} 01-01 00:03 new", "\u{25cf} 01-01 00:01 old"]),
            item_selected: Some(0),
            preview: strings(&["new", "", "about new"]),
            status: "last refresh: never | new items: 0".to_string(),
            keybinds: keybind_line(Pane::Groups, true),
            queue: None,
            help: None,
        }
    );
}

#[test]
fn screen_without_groups() {
    let app = AppState::new(Config::for_platform(Platform::Other));
    assert_eq!(
        screen(&app, &vec![]),
        Screen {
            groups: vec![],
            group_selected: None,
            feeds: vec![],
            feed_selected: None,
            items: vec![],
            item_selected: None,
            preview: strings(&[""]),
            status: "last refresh: never | new items: 0".to_string(),
            keybinds: keybind_line(Pane::Groups, true),
            queue: None,
            help: None,
        }
    );
}

#[test]
fn screen_with_selections_beyond_the_lists() {
    let mut app = AppState::new(Config::for_platform(Platform::Other));
    app.selected_item = 9;
    app.config.ui.unread_only = false;
    let shown = screen(&app, &groups());
    assert_eq!(shown.items.len(), 3);
    assert_eq!(shown.item_selected, Some(2));
    assert_eq!(shown.preview, strings(&[""]));

    app.selected_feed = 5;
    let shown = screen(&app, &groups());
    assert_eq!(shown.feed_selected, Some(1));
    assert!(shown.items.is_empty());
    assert_eq!(shown.item_selected, None);

    app.selected_group = 5;
    let shown = screen(&app, &groups());
    assert_eq!(shown.group_selected, Some(1));
    assert!(shown.feeds.is_empty());
    assert_eq!(shown.feed_selected, None);
}

#[test]
fn screen_shows_queue_help_and_status() {
    let mut app = AppState::new(Config::for_platform(Platform::Other));
    app.focus = Pane::Queue;
    app.show_help = true;
    app.queue = vec![item("later", 1, false), item("latest", 2, false)];
    app.note_refresh(3661, 4);
    let shown = screen(&app, &groups());
    assert_eq!(shown.queue, Some(strings(&["later", "latest"])));
    assert_eq!(shown.help, Some(help_text()));
    assert_eq!(shown.status, "last refresh: 01:01:01 | new items: 4");
    assert_eq!(shown.keybinds, keybind_line(Pane::Queue, true));
}

#[test]
fn lines_are_composed_from_their_parts() {
    assert_eq!(compose_line(true, "01-02 03:04", "Title"), "  01-02 03:04 Title");
    assert_eq!(compose_line(false, "", ""), "\u{25cf}  ");
    assert_eq!(compose_status(Some("12:00:00"), 3), "last refresh: 12:00:00 | new items: 3");
    assert_eq!(compose_status(None, 10), "last refresh: never | new items: 10");
}
