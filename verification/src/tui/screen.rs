//! What is on the screen, as text: the three lists with their selections,
//! the preview, the two bottom lines and the pop-ups.

use chrono::DateTime;
use vstd::prelude::*;
use vstd::string::*;

use super::keys::shown;
use super::list::visible_indices;
use super::{AppState, AppView, Pane};
use crate::data::{
    feed_views, group_views, item_views, slice_view, text_view, Feed, FeedView, Group, GroupView,
    Item, ItemView,
};
use crate::text::{decimal, decimal_text, join, joined, texts};

verus! {

/// The pattern of the time in an item's line: month, day, hour, minute.
pub open spec fn item_time_pattern() -> Seq<char> {
    "%m-%d %H:%M"@
}

/// The pattern of the time in the status line: hour, minute, second.
pub open spec fn status_time_pattern() -> Seq<char> {
    "%H:%M:%S"@
}

/// The text of a time, given in seconds since the epoch, in UTC and after
/// a pattern; none for a time beyond the calendar's range.
pub uninterp spec fn utc_text(seconds: i64, pattern: Seq<char>) -> Option<Seq<char>>;

/// Writes a time with `chrono`: `DateTime::from_timestamp`, and `format`
/// where that gives a time. Trusted: the text depends on the seconds and
/// the pattern alone, and the epoch itself has one. Only the two patterns of
/// this module are admitted, since `format` fails on a pattern that it
/// cannot read.
#[verifier::external_body]
fn format_utc(seconds: i64, pattern: &str) -> (text: Option<String>)
    requires
        pattern@ == item_time_pattern() || pattern@ == status_time_pattern(),
    ensures
        text_view(text) == utc_text(seconds, pattern@),
        seconds == 0 ==> text is Some,
{
    DateTime::from_timestamp(seconds, 0).map(|time| time.format(pattern).to_string())
}

/// A time as it is written: its text, or that of the epoch where the time
/// lies beyond the calendar's range.
pub open spec fn written_time(seconds: i64, pattern: Seq<char>) -> Seq<char> {
    match utc_text(seconds, pattern) {
        Some(text) => text,
        None => utc_text(0, pattern)->Some_0,
    }
}

/// Writes a time, and the epoch in place of a time beyond the calendar's
/// range.
fn write_time(seconds: i64, pattern: &str) -> (text: String)
    requires
        pattern@ == item_time_pattern() || pattern@ == status_time_pattern(),
    ensures
        text@ == written_time(seconds, pattern@),
{
    match format_utc(seconds, pattern) {
        Some(text) => text,
        None => format_utc(0, pattern).unwrap(),
    }
}

/// A line of the item list: a mark for an unread item, the time as it is
/// written, and the title.
pub open spec fn composed_line(read: bool, time: Seq<char>, title: Seq<char>) -> Seq<char> {
    (if read {
        " "@
    } else {
        "\u{25cf}"@
    }) + " "@ + time + " "@ + title
}

/// The line of an item in the list: a mark for an unread item, its time
/// and its title.
pub open spec fn item_line(item: ItemView) -> Seq<char> {
    composed_line(item.read, written_time(item.timestamp, item_time_pattern()), item.title)
}

/// The status line, given the time of the last refresh as it is written.
pub open spec fn composed_status(time: Option<Seq<char>>, new_items: usize) -> Seq<char> {
    "last refresh: "@ + (match time {
        Some(text) => text,
        None => "never"@,
    }) + " | new items: "@ + decimal(new_items as nat)
}

/// The status line: when the last refresh ended, and what it brought.
pub open spec fn status_line(last_refresh: Option<i64>, new_items: usize) -> Seq<char> {
    composed_status(
        match last_refresh {
            Some(at) => Some(written_time(at, status_time_pattern())),
            None => None,
        },
        new_items,
    )
}

/// The hints for the keys, as they apply to the pane that has the focus.
pub open spec fn key_hints(focus: Pane, unread_only: bool) -> Seq<Seq<char>> {
    seq![
        "Tab:Next pane"@,
        "BackTab:Prev pane"@,
        if unread_only {
            "u:Show all"@
        } else {
            "u:Unread only"@
        },
        "Ctrl+f:Search"@,
        "?:Help"@,
        "Q:Queue"@,
    ] + (match focus {
        Pane::Groups => seq![
            "q:Quit"@,
            "a:Add group"@,
            "d:Del group"@,
            "r:Rename"@,
            "A:Mark read"@,
            "O:Open unread"@,
        ],
        Pane::Feeds => seq![
            "q:Quit"@,
            "a:Add feed"@,
            "d:Del feed"@,
            "A:Mark read"@,
            "O:Open unread"@,
        ],
        Pane::Items => seq![
            "Enter:Open"@,
            "Space:Toggle read"@,
            "m:Mark read"@,
            "M:Mark unread"@,
            "q:Queue"@,
            "Delete:Dequeue"@,
        ],
        Pane::Preview => seq!["q:Quit"@],
        Pane::Queue => seq!["Enter:Open all"@, "Esc/q:Close"@],
    })
}

/// The line of key hints: the hints with a bar between each two.
pub open spec fn keybind_text(focus: Pane, unread_only: bool) -> Seq<char> {
    joined(key_hints(focus, unread_only), " | "@)
}

/// The lines of the help.
pub open spec fn help_lines() -> Seq<Seq<char>> {
    seq![
        "?: Toggle help"@,
        "q: Quit"@,
        "Tab/BackTab: Switch panes"@,
        "Ctrl+f: Search"@,
        "Q: Queue"@,
        "u: Toggle unread only"@,
    ]
}

/// The line that is highlighted in a list of `count` lines: the selected
/// one, or the last where the selection lies beyond it; none in an empty
/// list.
pub open spec fn highlighted(selected: usize, count: nat) -> Option<usize> {
    if count == 0 {
        None
    } else if selected < count {
        Some(selected)
    } else {
        Some((count - 1) as usize)
    }
}

/// The preview: title, an empty line and description of the listed item
/// that the selection points at, or one empty line.
pub open spec fn preview_lines(app: AppView, groups: Seq<GroupView>) -> Seq<Seq<char>> {
    let lines = shown(app, groups);
    if app.selected_item < lines.len() {
        let item = groups[app.selected_group as int].feeds[app.selected_feed as int].items[lines[app.selected_item as int]];
        seq![item.title, ""@, item.desc]
    } else {
        seq![""@]
    }
}

/// The feeds of the selected group; none where no group is selected.
pub open spec fn selected_feeds(app: AppView, groups: Seq<GroupView>) -> Seq<FeedView> {
    if app.selected_group < groups.len() {
        groups[app.selected_group as int].feeds
    } else {
        Seq::empty()
    }
}

/// The lines of the items that are listed for the selected feed.
pub open spec fn item_lines(app: AppView, groups: Seq<GroupView>) -> Seq<Seq<char>> {
    shown(app, groups).map_values(
        |position: int|
            item_line(
                groups[app.selected_group as int].feeds[app.selected_feed as int].items[position],
            ),
    )
}

/// What is on the screen.
#[derive(Debug, PartialEq, Eq)]
pub struct Screen {
    /// The names of the groups.
    pub groups: Vec<String>,
    pub group_selected: Option<usize>,
    /// The titles of the feeds of the selected group.
    pub feeds: Vec<String>,
    pub feed_selected: Option<usize>,
    /// The lines of the listed items of the selected feed.
    pub items: Vec<String>,
    pub item_selected: Option<usize>,
    pub preview: Vec<String>,
    pub status: String,
    pub keybinds: String,
    /// The titles of the queued items, while the queue has the focus.
    pub queue: Option<Vec<String>>,
    /// The lines of the help, while it is shown.
    pub help: Option<Vec<String>>,
}

/// What a [`Screen`] holds, as plain values.
pub struct ScreenView {
    pub groups: Seq<Seq<char>>,
    pub group_selected: Option<usize>,
    pub feeds: Seq<Seq<char>>,
    pub feed_selected: Option<usize>,
    pub items: Seq<Seq<char>>,
    pub item_selected: Option<usize>,
    pub preview: Seq<Seq<char>>,
    pub status: Seq<char>,
    pub keybinds: Seq<char>,
    pub queue: Option<Seq<Seq<char>>>,
    pub help: Option<Seq<Seq<char>>>,
}

/// The views of an optional list of strings.
pub open spec fn lines_view(lines: Option<Vec<String>>) -> Option<Seq<Seq<char>>> {
    match lines {
        Some(list) => Some(texts(list@)),
        None => None,
    }
}

impl View for Screen {
    type V = ScreenView;

    open spec fn view(&self) -> ScreenView {
        ScreenView {
            groups: texts(self.groups@),
            group_selected: self.group_selected,
            feeds: texts(self.feeds@),
            feed_selected: self.feed_selected,
            items: texts(self.items@),
            item_selected: self.item_selected,
            preview: texts(self.preview@),
            status: self.status@,
            keybinds: self.keybinds@,
            queue: lines_view(self.queue),
            help: lines_view(self.help),
        }
    }
}

/// The screen of a session over the given groups.
pub open spec fn screen_of(app: AppView, groups: Seq<GroupView>) -> ScreenView {
    ScreenView {
        groups: groups.map_values(|group: GroupView| group.name),
        group_selected: highlighted(app.selected_group, groups.len()),
        feeds: selected_feeds(app, groups).map_values(|feed: FeedView| feed.title),
        feed_selected: highlighted(app.selected_feed, selected_feeds(app, groups).len()),
        items: item_lines(app, groups),
        item_selected: highlighted(app.selected_item, shown(app, groups).len()),
        preview: preview_lines(app, groups),
        status: status_line(app.last_refresh, app.new_items),
        keybinds: keybind_text(app.focus, app.config.ui.unread_only),
        queue: if app.focus == Pane::Queue {
            Some(app.queue.map_values(|item: ItemView| item.title))
        } else {
            None
        },
        help: if app.show_help {
            Some(help_lines())
        } else {
            None
        },
    }
}

/// Picks the line to highlight.
pub fn highlight(selected: usize, count: usize) -> (line: Option<usize>)
    ensures
        line == highlighted(selected, count as nat),
{
    if count == 0 {
        None
    } else if selected < count {
        Some(selected)
    } else {
        Some(count - 1)
    }
}

/// Writes a line of the item list from its parts.
pub fn compose_line(read: bool, time: &str, title: &str) -> (line: String)
    ensures
        line@ == composed_line(read, time@, title@),
{
    let mut line = String::from_str(
        if read {
            " "
        } else {
            "\u{25cf}"
        },
    );
    line.append(" ");
    line.append(time);
    line.append(" ");
    line.append(title);
    line
}

/// Writes the line of an item.
pub fn line_of(item: &Item) -> (line: String)
    ensures
        line@ == item_line(item@),
{
    let time = write_time(item.timestamp, "%m-%d %H:%M");
    compose_line(item.read, time.as_str(), item.title.as_str())
}

/// Writes the status line from the time of the last refresh as it is
/// written, and the number of items it brought.
pub fn compose_status(time: Option<&str>, new_items: usize) -> (line: String)
    ensures
        line@ == composed_status(slice_view(time), new_items),
{
    let mut line = String::from_str("last refresh: ");
    match time {
        Some(text) => line.append(text),
        None => line.append("never"),
    }
    line.append(" | new items: ");
    line.append(decimal_text(new_items).as_str());
    line
}

/// Writes the status line.
pub fn status_text(last_refresh: Option<i64>, new_items: usize) -> (line: String)
    ensures
        line@ == status_line(last_refresh, new_items),
{
    match last_refresh {
        Some(at) => {
            let time = write_time(at, "%H:%M:%S");
            compose_status(Some(time.as_str()), new_items)
        },
        None => compose_status(None, new_items),
    }
}

/// Adds a hint to the list.
fn hint(hints: &mut Vec<String>, text: &str)
    ensures
        texts(final(hints)@) == texts(old(hints)@).push(text@),
{
    hints.push(String::from_str(text));
}

/// Writes the line of key hints for the pane that has the focus.
pub fn keybind_line(focus: Pane, unread_only: bool) -> (line: String)
    ensures
        line@ == keybind_text(focus, unread_only),
{
    let mut hints: Vec<String> = Vec::new();
    hint(&mut hints, "Tab:Next pane");
    hint(&mut hints, "BackTab:Prev pane");
    hint(
        &mut hints,
        if unread_only {
            "u:Show all"
        } else {
            "u:Unread only"
        },
    );
    hint(&mut hints, "Ctrl+f:Search");
    hint(&mut hints, "?:Help");
    hint(&mut hints, "Q:Queue");
    match focus {
        Pane::Groups => {
            hint(&mut hints, "q:Quit");
            hint(&mut hints, "a:Add group");
            hint(&mut hints, "d:Del group");
            hint(&mut hints, "r:Rename");
            hint(&mut hints, "A:Mark read");
            hint(&mut hints, "O:Open unread");
        },
        Pane::Feeds => {
            hint(&mut hints, "q:Quit");
            hint(&mut hints, "a:Add feed");
            hint(&mut hints, "d:Del feed");
            hint(&mut hints, "A:Mark read");
            hint(&mut hints, "O:Open unread");
        },
        Pane::Items => {
            hint(&mut hints, "Enter:Open");
            hint(&mut hints, "Space:Toggle read");
            hint(&mut hints, "m:Mark read");
            hint(&mut hints, "M:Mark unread");
            hint(&mut hints, "q:Queue");
            hint(&mut hints, "Delete:Dequeue");
        },
        Pane::Preview => {
            hint(&mut hints, "q:Quit");
        },
        Pane::Queue => {
            hint(&mut hints, "Enter:Open all");
            hint(&mut hints, "Esc/q:Close");
        },
    }
    proof {
        assert(texts(hints@) =~= key_hints(focus, unread_only));
    }
    join(&hints, " | ")
}

/// Writes the lines of the help.
pub fn help_text() -> (lines: Vec<String>)
    ensures
        texts(lines@) == help_lines(),
{
    let mut lines: Vec<String> = Vec::new();
    hint(&mut lines, "?: Toggle help");
    hint(&mut lines, "q: Quit");
    hint(&mut lines, "Tab/BackTab: Switch panes");
    hint(&mut lines, "Ctrl+f: Search");
    hint(&mut lines, "Q: Queue");
    hint(&mut lines, "u: Toggle unread only");
    lines
}

/// The parts, in hundredths, into which a side is split for a pop-up that
/// is to take `percent` of it and stand in the middle.
pub fn centered(percent: u16) -> (parts: (u16, u16, u16))
    requires
        percent <= 100,
    ensures
        parts.0 == (100 - percent) / 2,
        parts.1 == percent,
        parts.2 == (100 - percent) / 2,
{
    ((100 - percent) / 2, percent, (100 - percent) / 2)
}

/// Copies the names of the groups.
fn group_names(groups: &Vec<Group>) -> (names: Vec<String>)
    ensures
        texts(names@) == group_views(groups@).map_values(|group: GroupView| group.name),
{
    let mut names: Vec<String> = Vec::new();
    let mut g: usize = 0;
    while g < groups.len()
        invariant
            g <= groups.len(),
            names@.len() == g,
            forall|j: int| 0 <= j < g ==> (#[trigger] names@[j])@ == groups@[j].name@,
        decreases groups.len() - g,
    {
        names.push(groups[g].name.clone());
        g = g + 1;
    }
    names
}

/// Copies the titles of the feeds.
fn feed_titles(feeds: &Vec<Feed>) -> (titles: Vec<String>)
    ensures
        texts(titles@) == feed_views(feeds@).map_values(|feed: FeedView| feed.title),
{
    let mut titles: Vec<String> = Vec::new();
    let mut f: usize = 0;
    while f < feeds.len()
        invariant
            f <= feeds.len(),
            titles@.len() == f,
            forall|j: int| 0 <= j < f ==> (#[trigger] titles@[j])@ == feeds@[j].title@,
        decreases feeds.len() - f,
    {
        titles.push(feeds[f].title.clone());
        f = f + 1;
    }
    titles
}

/// Copies the titles of the items.
fn item_titles(items: &Vec<Item>) -> (titles: Vec<String>)
    ensures
        texts(titles@) == item_views(items@).map_values(|item: ItemView| item.title),
{
    let mut titles: Vec<String> = Vec::new();
    let mut i: usize = 0;
    while i < items.len()
        invariant
            i <= items.len(),
            titles@.len() == i,
            forall|j: int| 0 <= j < i ==> (#[trigger] titles@[j])@ == items@[j].title@,
        decreases items.len() - i,
    {
        titles.push(items[i].title.clone());
        i = i + 1;
    }
    titles
}

/// Puts together what is on the screen.
pub fn screen(app: &AppState, groups: &Vec<Group>) -> (screen: Screen)
    ensures
        screen@ == screen_of(app@, group_views(groups@)),
{
    let ghost views = group_views(groups@);
    let indices = visible_indices(app, groups);
    let mut items: Vec<String> = Vec::new();
    let mut preview: Vec<String> = Vec::new();
    let feeds = if app.selected_group < groups.len() {
        feed_titles(&groups[app.selected_group].feeds)
    } else {
        Vec::new()
    };
    if indices.len() > 0 {
        let listed = &groups[app.selected_group].feeds[app.selected_feed].items;
        let mut n: usize = 0;
        while n < indices.len()
            invariant
                n <= indices.len(),
                items@.len() == n,
                forall|k: int| 0 <= k < indices@.len() ==> indices@[k] < listed@.len(),
                forall|j: int|
                    0 <= j < n ==> (#[trigger] items@[j])@ == item_line(listed@[indices@[j] as int]@),
            decreases indices.len() - n,
        {
            items.push(line_of(&listed[indices[n]]));
            n = n + 1;
        }
    }
    if app.selected_item < indices.len() {
        let item = &groups[app.selected_group].feeds[app.selected_feed].items[indices[app.selected_item]];
        preview.push(item.title.clone());
        preview.push(String::from_str(""));
        preview.push(item.desc.clone());
    } else {
        preview.push(String::from_str(""));
    }
    let on_queue = match app.focus {
        Pane::Queue => true,
        _ => false,
    };
    let screen = Screen {
        groups: group_names(groups),
        group_selected: highlight(app.selected_group, groups.len()),
        feed_selected: highlight(app.selected_feed, feeds.len()),
        feeds,
        item_selected: highlight(app.selected_item, indices.len()),
        items,
        preview,
        status: status_text(app.last_refresh, app.new_items),
        keybinds: keybind_line(app.focus, app.config.ui.unread_only),
        queue: if on_queue {
            Some(item_titles(&app.queue))
        } else {
            None
        },
        help: if app.show_help {
            Some(help_text())
        } else {
            None
        },
    };
    proof {
        let want = screen_of(app@, views);
        assert(screen@.feeds == want.feeds);
        assert(screen@.items == want.items);
        assert(screen@.preview == want.preview);
    }
    screen
}

} // verus!
