use rssq::config::{Config, Platform, SortOrder};
use rssq::data::{Feed, Group, Item};
use rssq::tui::list::{list_items, passes_filters, visible_indices};
use rssq::tui::AppState;

fn item(title: &str, timestamp: i64, read: bool) -> Item {
    Item {
        id: title.to_string(),
        title: title.to_string(),
        link: String::new(),
        desc: String::new(),
        timestamp,
        read,
        queued: false,
    }
}

fn sample() -> Vec<Item> {
    vec![
        item("Bravo", 20, false),
        item("alpha", 30, true),
        item("Charlie", 10, false),
        item("bravo two", 20, false),
        item("Alpha", 30, false),
    ]
}

#[test]
fn listing_by_channel_keeps_the_feed_order() {
    assert_eq!(list_items(&sample(), false, "", SortOrder::Channel), vec![0, 1, 2, 3, 4]);
}

#[test]
fn listing_by_date_is_newest_first_and_stable() {
    assert_eq!(list_items(&sample(), false, "", SortOrder::Date), vec![1, 4, 0, 3, 2]);
}

#[test]
fn listing_by_title_is_ascending_by_bytes() {
    // upper-case letters sort before lower-case ones
    assert_eq!(list_items(&sample(), false, "", SortOrder::Title), vec![4, 0, 2, 1, 3]);
}

#[test]
fn listing_by_title_keeps_equal_titles_in_order() {
    let items = vec![item("b", 1, false), item("a", 2, false), item("b", 3, false), item("a", 4, false)];
    assert_eq!(list_items(&items, false, "", SortOrder::Title), vec![1, 3, 0, 2]);
}

#[test]
fn listing_can_leave_out_read_items() {
    assert_eq!(list_items(&sample(), true, "", SortOrder::Channel), vec![0, 2, 3, 4]);
    assert_eq!(list_items(&sample(), true, "", SortOrder::Date), vec![4, 0, 3, 2]);
}

#[test]
fn listing_searches_titles_without_regard_to_case() {
    assert_eq!(list_items(&sample(), false, "BRAVO", SortOrder::Channel), vec![0, 3]);
    assert_eq!(list_items(&sample(), false, "alpha", SortOrder::Channel), vec![1, 4]);
    assert_eq!(list_items(&sample(), true, "Alpha", SortOrder::Channel), vec![4]);
    assert_eq!(list_items(&sample(), false, "o t", SortOrder::Channel), vec![3]);
    assert_eq!(list_items(&sample(), false, "delta", SortOrder::Channel), Vec::<usize>::new());
}

#[test]
fn listing_folds_the_case_of_other_alphabets_too() {
    let items = vec![item("\u{c9}cole", 1, false), item("\u{e9}cole", 2, false), item("ecole", 3, false)];
    assert_eq!(list_items(&items, false, "\u{c9}COLE", SortOrder::Channel), vec![0, 1]);
}

#[test]
fn listing_of_nothing_is_empty() {
    assert_eq!(list_items(&[].to_vec(), false, "", SortOrder::Date), Vec::<usize>::new());
}

fn app() -> AppState {
    AppState::new(Config::for_platform(Platform::Other))
}

fn groups() -> Vec<Group> {
    vec![
        Group { name: "empty".to_string(), feeds: vec![], unread_count: 0 },
        Group {
            name: "full".to_string(),
            feeds: vec![Feed::default(), Feed { items: sample(), ..Feed::default() }],
            unread_count: 0,
        },
    ]
}

#[test]
fn visible_indices_follow_the_selection_and_the_settings() {
    let mut app = app();
    app.selected_group = 1;
    app.selected_feed = 1;
    assert_eq!(visible_indices(&app, &groups()), vec![4, 0, 3, 2]);
    app.config.ui.unread_only = false;
    app.config.ui.sort = SortOrder::Title;
    app.search = "a".to_string();
    assert_eq!(visible_indices(&app, &groups()), vec![4, 0, 2, 1, 3]);
    app.search = "al".to_string();
    assert_eq!(visible_indices(&app, &groups()), vec![4, 1]);
}

#[test]
fn visible_indices_are_empty_without_a_selected_feed() {
    let mut app = app();
    assert_eq!(visible_indices(&app, &vec![]), Vec::<usize>::new());
    assert_eq!(visible_indices(&app, &groups()), Vec::<usize>::new());
    app.selected_group = 1;
    assert_eq!(visible_indices(&app, &groups()), Vec::<usize>::new());
    app.selected_feed = 2;
    assert_eq!(visible_indices(&app, &groups()), Vec::<usize>::new());
    app.selected_group = 2;
    app.selected_feed = 0;
    assert_eq!(visible_indices(&app, &groups()), Vec::<usize>::new());
}

#[test]
fn filters_work_on_the_title_they_are_given() {
    assert!(passes_filters(false, "anything", true, ""));
    assert!(!passes_filters(true, "anything", true, ""));
    assert!(passes_filters(true, "anything", false, ""));
    assert!(passes_filters(false, "rust weekly", true, "week"));
    assert!(!passes_filters(false, "rust weekly", true, "Week"));
    assert!(!passes_filters(true, "rust weekly", true, "week"));
    assert!(!passes_filters(false, "", false, "x"));
}
