//! The state of an interactive session and what the user's actions do to
//! it and to the stored groups. Drawing and reading keys are left to the
//! program around the library.

use vstd::prelude::*;
use vstd::string::*;

use crate::config::Config;
use crate::text::texts;

pub mod keys;
pub mod list;
pub mod open;
pub mod queue;
pub mod screen;
use crate::data::{
    all_items, feed_views, item_views, unread, Feed, FeedView, Group, GroupView, Item, ItemView,
};

verus! {

/// The panes that can have the focus.
#[derive(Clone, Copy, Debug, PartialEq, Eq)]
pub enum Pane {
    Groups,
    Feeds,
    Items,
    Preview,
    Queue,
}

impl Default for Pane {
    fn default() -> (pane: Pane)
        ensures
            pane == Pane::Groups,
    {
        Pane::Groups
    }
}

impl Pane {
    /// The pane that follows this one when the focus moves on. The queue
    /// keeps the focus.
    pub open spec fn following(self) -> Pane {
        match self {
            Pane::Groups => Pane::Feeds,
            Pane::Feeds => Pane::Items,
            Pane::Items => Pane::Preview,
            Pane::Preview => Pane::Groups,
            Pane::Queue => Pane::Queue,
        }
    }

    /// The pane that precedes this one. The queue keeps the focus.
    pub open spec fn preceding(self) -> Pane {
        match self {
            Pane::Groups => Pane::Preview,
            Pane::Feeds => Pane::Groups,
            Pane::Items => Pane::Feeds,
            Pane::Preview => Pane::Items,
            Pane::Queue => Pane::Queue,
        }
    }

    /// The pane that gets the focus when it moves on.
    pub fn next(self) -> (pane: Pane)
        ensures
            pane == self.following(),
    {
        match self {
            Pane::Groups => Pane::Feeds,
            Pane::Feeds => Pane::Items,
            Pane::Items => Pane::Preview,
            Pane::Preview => Pane::Groups,
            Pane::Queue => Pane::Queue,
        }
    }

    /// The pane that gets the focus when it moves back.
    pub fn previous(self) -> (pane: Pane)
        ensures
            pane == self.preceding(),
    {
        match self {
            Pane::Groups => Pane::Preview,
            Pane::Feeds => Pane::Groups,
            Pane::Items => Pane::Feeds,
            Pane::Preview => Pane::Items,
            Pane::Queue => Pane::Queue,
        }
    }
}

/// A key, as far as the session tells keys apart.
#[derive(Clone, Copy, Debug, PartialEq, Eq)]
pub enum Key {
    Up,
    Down,
    Left,
    Right,
    Enter,
    Esc,
    Tab,
    BackTab,
    Delete,
    Char(char),
    Other,
}

/// The modifier keys held down with a key.
#[derive(Clone, Copy, Debug, PartialEq, Eq)]
pub struct Modifiers {
    pub control: bool,
    /// Any modifier other than control.
    pub others: bool,
}

impl Modifiers {
    /// No modifier is held down.
    pub open spec fn none(self) -> bool {
        !self.control && !self.others
    }
}

/// What the session wants to know from the user before it goes on.
#[derive(Debug, PartialEq, Eq)]
pub enum Question {
    /// The name of a new group.
    NewGroup,
    /// The new name of the selected group.
    RenameGroup,
    /// Whether to delete the selected group, which has this name.
    DeleteGroup(String),
    /// Whether to open all unread items of the selected group.
    OpenGroup,
    /// The address of a new feed.
    NewFeed,
    /// Whether to delete the selected feed, which has this title.
    DeleteFeed(String),
    /// The text to search for.
    Search,
}

/// What a [`Question`] holds, as plain values.
pub enum QuestionView {
    NewGroup,
    RenameGroup,
    DeleteGroup(Seq<char>),
    OpenGroup,
    NewFeed,
    DeleteFeed(Seq<char>),
    Search,
}

impl View for Question {
    type V = QuestionView;

    open spec fn view(&self) -> QuestionView {
        match self {
            Question::NewGroup => QuestionView::NewGroup,
            Question::RenameGroup => QuestionView::RenameGroup,
            Question::DeleteGroup(name) => QuestionView::DeleteGroup(name@),
            Question::OpenGroup => QuestionView::OpenGroup,
            Question::NewFeed => QuestionView::NewFeed,
            Question::DeleteFeed(title) => QuestionView::DeleteFeed(title@),
            Question::Search => QuestionView::Search,
        }
    }
}

impl QuestionView {
    /// The words in which the question is put.
    pub open spec fn wording(self) -> Seq<char> {
        match self {
            QuestionView::NewGroup => "New group name:"@,
            QuestionView::RenameGroup => "Rename group:"@,
            QuestionView::DeleteGroup(name) => "Delete group '"@ + name + "' ? [y/N]"@,
            QuestionView::OpenGroup => "Open all unread items in group? [y/N]"@,
            QuestionView::NewFeed => "Feed URL:"@,
            QuestionView::DeleteFeed(title) => "Delete feed '"@ + title + "' ? [y/N]"@,
            QuestionView::Search => "Search:"@,
        }
    }

    /// The question is answered with yes or no.
    pub open spec fn is_yes_or_no(self) -> bool {
        self is DeleteGroup || self is OpenGroup || self is DeleteFeed
    }
}

impl Question {
    /// The words in which the question is put to the user.
    pub fn text(&self) -> (text: String)
        ensures
            text@ == self@.wording(),
    {
        match self {
            Question::NewGroup => String::from_str("New group name:"),
            Question::RenameGroup => String::from_str("Rename group:"),
            Question::DeleteGroup(name) => {
                let mut text = String::from_str("Delete group '");
                text.append(name.as_str());
                text.append("' ? [y/N]");
                text
            },
            Question::OpenGroup => String::from_str("Open all unread items in group? [y/N]"),
            Question::NewFeed => String::from_str("Feed URL:"),
            Question::DeleteFeed(title) => {
                let mut text = String::from_str("Delete feed '");
                text.append(title.as_str());
                text.append("' ? [y/N]");
                text
            },
            Question::Search => String::from_str("Search:"),
        }
    }

    /// Tells whether the question is answered with yes or no.
    pub fn wants_yes_or_no(&self) -> (yes_or_no: bool)
        ensures
            yes_or_no == self@.is_yes_or_no(),
    {
        match self {
            Question::DeleteGroup(_) => true,
            Question::OpenGroup => true,
            Question::DeleteFeed(_) => true,
            _ => false,
        }
    }
}

/// What is left for the program to do after the session has handled a key
/// or an answer.
#[derive(Debug, PartialEq, Eq)]
pub enum Effect {
    Nothing,
    /// Put the question to the user and hand the answer to the session.
    Ask(Question),
    /// Open these links, in this order.
    Open(Vec<String>),
    /// Save everything and leave.
    Quit,
}

/// What an [`Effect`] holds, as plain values.
pub enum EffectView {
    Nothing,
    Ask(QuestionView),
    Open(Seq<Seq<char>>),
    Quit,
}

impl View for Effect {
    type V = EffectView;

    open spec fn view(&self) -> EffectView {
        match self {
            Effect::Nothing => EffectView::Nothing,
            Effect::Ask(question) => EffectView::Ask(question@),
            Effect::Open(links) => EffectView::Open(texts(links@)),
            Effect::Quit => EffectView::Quit,
        }
    }
}

/// The state of a session.
#[derive(Debug, PartialEq, Eq)]
pub struct AppState {
    pub focus: Pane,
    /// The items queued for reading, in the order in which they were queued.
    pub queue: Vec<Item>,
    /// The text that listed items must contain; empty for no filter.
    pub search: String,
    pub show_help: bool,
    pub config: Config,
    pub selected_group: usize,
    pub selected_feed: usize,
    pub selected_item: usize,
    /// When the last refresh cycle ended, in seconds since the epoch.
    pub last_refresh: Option<i64>,
    /// The items gained in the last refresh cycle.
    pub new_items: usize,
}

/// What an [`AppState`] holds, as plain values.
pub struct AppView {
    pub focus: Pane,
    pub queue: Seq<ItemView>,
    pub search: Seq<char>,
    pub show_help: bool,
    pub config: Config,
    pub selected_group: usize,
    pub selected_feed: usize,
    pub selected_item: usize,
    pub last_refresh: Option<i64>,
    pub new_items: usize,
}

impl View for AppState {
    type V = AppView;

    open spec fn view(&self) -> AppView {
        AppView {
            focus: self.focus,
            queue: item_views(self.queue@),
            search: self.search@,
            show_help: self.show_help,
            config: self.config,
            selected_group: self.selected_group,
            selected_feed: self.selected_feed,
            selected_item: self.selected_item,
            last_refresh: self.last_refresh,
            new_items: self.new_items,
        }
    }
}

impl AppState {
    /// The state in which a session starts: the focus on the groups, the
    /// first of everything selected, nothing queued, searched or refreshed.
    pub fn new(config: Config) -> (app: AppState)
        ensures
            app.focus == Pane::Groups,
            app.queue@.len() == 0,
            app.search@.len() == 0,
            !app.show_help,
            app.config == config,
            app.selected_group == 0,
            app.selected_feed == 0,
            app.selected_item == 0,
            app.last_refresh is None,
            app.new_items == 0,
    {
        AppState {
            focus: Pane::Groups,
            queue: Vec::new(),
            search: String::new(),
            show_help: false,
            config,
            selected_group: 0,
            selected_feed: 0,
            selected_item: 0,
            last_refresh: None,
            new_items: 0,
        }
    }

    /// Takes note of a finished refresh cycle.
    pub fn note_refresh(&mut self, completed_at: i64, new_items: usize)
        ensures
            final(self).last_refresh == Some(completed_at),
            final(self).new_items == new_items,
            final(self).focus == old(self).focus,
            final(self).queue == old(self).queue,
            final(self).search == old(self).search,
            final(self).show_help == old(self).show_help,
            final(self).config == old(self).config,
            final(self).selected_group == old(self).selected_group,
            final(self).selected_feed == old(self).selected_feed,
            final(self).selected_item == old(self).selected_item,
    {
        self.last_refresh = Some(completed_at);
        self.new_items = new_items;
    }
}

/// The item, marked read.
pub open spec fn read_item(item: ItemView) -> ItemView {
    ItemView {
        id: item.id,
        title: item.title,
        link: item.link,
        desc: item.desc,
        timestamp: item.timestamp,
        read: true,
        queued: item.queued,
    }
}

/// The feed with every item marked read.
pub open spec fn read_feed(feed: FeedView) -> FeedView {
    FeedView {
        url: feed.url,
        title: feed.title,
        items: feed.items.map_values(|item: ItemView| read_item(item)),
        etag: feed.etag,
        last_modified: feed.last_modified,
    }
}

/// The group with every item marked read, and counted.
pub open spec fn read_group(group: GroupView) -> GroupView {
    GroupView {
        name: group.name,
        feeds: group.feeds.map_values(|feed: FeedView| read_feed(feed)),
        unread_count: 0,
    }
}

/// The links of the unread items, in the items' order.
pub open spec fn unread_links(items: Seq<ItemView>) -> Seq<Seq<char>> {
    items.filter(|item: ItemView| !item.read).map_values(|item: ItemView| item.link)
}

/// Marks every item of the feed read.
pub fn mark_feed_read(feed: &mut Feed)
    ensures
        final(feed)@ == read_feed(old(feed)@),
{
    let mut i: usize = 0;
    while i < feed.items.len()
        invariant
            i <= feed.items.len(),
            feed.items@.len() == old(feed).items@.len(),
            feed.url == old(feed).url,
            feed.title == old(feed).title,
            feed.etag == old(feed).etag,
            feed.last_modified == old(feed).last_modified,
            forall|j: int| 0 <= j < i ==> (#[trigger] feed.items@[j])@ == read_item(old(feed).items@[j]@),
            forall|j: int| i <= j < feed.items@.len() ==> #[trigger] feed.items@[j] == old(feed).items@[j],
        decreases feed.items.len() - i,
    {
        feed.items[i].read = true;
        i = i + 1;
    }
    proof {
        assert(feed@.items =~= read_feed(old(feed)@).items);
    }
}

/// No item of a feed that was marked read is unread.
pub proof fn lemma_read_feeds_have_no_unread(feeds: Seq<FeedView>)
    ensures
        unread(all_items(feeds.map_values(|feed: FeedView| read_feed(feed)))) == 0,
    decreases feeds.len(),
{
    let marked = feeds.map_values(|feed: FeedView| read_feed(feed));
    let unread_pred = |item: ItemView| !item.read;
    if feeds.len() > 0 {
        lemma_read_feeds_have_no_unread(feeds.drop_last());
        assert(marked.drop_last() =~= feeds.drop_last().map_values(|feed: FeedView| read_feed(feed)));
        let front = all_items(marked.drop_last());
        let last = marked.last().items;
        Seq::filter_distributes_over_add(front, last, unread_pred);
        last.lemma_all_neg_filter_empty(unread_pred);
    }
}

/// Marks every item of the group read and recounts the group.
pub fn mark_group_read(group: &mut Group)
    ensures
        final(group)@ == read_group(old(group)@),
{
    let mut k: usize = 0;
    while k < group.feeds.len()
        invariant
            k <= group.feeds.len(),
            group.feeds@.len() == old(group).feeds@.len(),
            group.name == old(group).name,
            forall|j: int| 0 <= j < k ==> (#[trigger] group.feeds@[j])@ == read_feed(old(group).feeds@[j]@),
            forall|j: int| k <= j < group.feeds@.len() ==> #[trigger] group.feeds@[j] == old(group).feeds@[j],
        decreases group.feeds.len() - k,
    {
        mark_feed_read(&mut group.feeds[k]);
        k = k + 1;
    }
    proof {
        assert(group@.feeds =~= read_group(old(group)@).feeds);
        lemma_read_feeds_have_no_unread(old(group)@.feeds);
    }
    group.update_unread();
}

/// The unread links of a list of items that ends with another list are
/// those of the first list and then those of the second.
proof fn lemma_unread_links_add(first: Seq<ItemView>, second: Seq<ItemView>)
    ensures
        unread_links(first + second) == unread_links(first) + unread_links(second),
{
    let unread_pred = |item: ItemView| !item.read;
    Seq::filter_distributes_over_add(first, second, unread_pred);
}

/// Marks every unread item of the group read, recounts the group and
/// returns the links of those items, feed after feed, for the caller to
/// open.
pub fn open_unread_group(group: &mut Group) -> (links: Vec<String>)
    ensures
        final(group)@ == read_group(old(group)@),
        texts(links@) == unread_links(all_items(old(group)@.feeds)),
{
    let mut links: Vec<String> = Vec::new();
    let mut k: usize = 0;
    proof {
        reveal(Seq::filter);
    }
    while k < group.feeds.len()
        invariant
            k <= group.feeds.len(),
            group.feeds@.len() == old(group).feeds@.len(),
            group.name == old(group).name,
            forall|j: int| 0 <= j < k ==> (#[trigger] group.feeds@[j])@ == read_feed(old(group).feeds@[j]@),
            forall|j: int| k <= j < group.feeds@.len() ==> #[trigger] group.feeds@[j] == old(group).feeds@[j],
            texts(links@) == unread_links(all_items(feed_views(old(group).feeds@.take(k as int)))),
        decreases group.feeds.len() - k,
    {
        let mut more = open_unread_feed(&mut group.feeds[k]);
        proof {
            let wider = feed_views(old(group).feeds@.take(k + 1));
            assert(wider.drop_last() =~= feed_views(old(group).feeds@.take(k as int)));
            lemma_unread_links_add(all_items(wider.drop_last()), wider.last().items);
        }
        links.append(&mut more);
        k = k + 1;
    }
    proof {
        assert(old(group).feeds@.take(k as int) =~= old(group).feeds@);
        assert(group@.feeds =~= read_group(old(group)@).feeds);
        lemma_read_feeds_have_no_unread(old(group)@.feeds);
    }
    group.update_unread();
    links
}

/// Marks every unread item of the feed read and returns the links of those
/// items, in the items' order, for the caller to open.
pub fn open_unread_feed(feed: &mut Feed) -> (links: Vec<String>)
    ensures
        final(feed)@ == read_feed(old(feed)@),
        texts(links@) == unread_links(old(feed)@.items),
{
    let mut links: Vec<String> = Vec::new();
    let mut i: usize = 0;
    while i < feed.items.len()
        invariant
            i <= feed.items.len(),
            feed.items@.len() == old(feed).items@.len(),
            feed.url == old(feed).url,
            feed.title == old(feed).title,
            feed.etag == old(feed).etag,
            feed.last_modified == old(feed).last_modified,
            forall|j: int| 0 <= j < i ==> (#[trigger] feed.items@[j])@ == read_item(old(feed).items@[j]@),
            forall|j: int| i <= j < feed.items@.len() ==> #[trigger] feed.items@[j] == old(feed).items@[j],
            texts(links@) == unread_links(old(feed)@.items.take(i as int)),
        decreases feed.items.len() - i,
    {
        proof {
            let unread_pred = |item: ItemView| !item.read;
            let given = old(feed)@.items;
            assert(given.take(i + 1) =~= given.take(i as int).push(given[i as int]));
            given.take(i as int).lemma_filter_push(given[i as int], unread_pred);
        }
        if !feed.items[i].read {
            let link = feed.items[i].link.clone();
            links.push(link);
            feed.items[i].read = true;
            proof {
                let given = old(feed)@.items;
                let unread_pred = |item: ItemView| !item.read;
                let kept = given.take(i as int).filter(unread_pred);
                assert(kept.push(given[i as int]).map_values(|item: ItemView| item.link)
                    =~= kept.map_values(|item: ItemView| item.link).push(given[i as int].link));
            }
        }
        i = i + 1;
    }
    proof {
        assert(feed@.items =~= read_feed(old(feed)@).items);
        assert(old(feed)@.items.take(i as int) =~= old(feed)@.items);
    }
    links
}

} // verus!
