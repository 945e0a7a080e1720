//! What each key does, pane by pane, and what an answer of the user does.

use vstd::prelude::*;
use vstd::string::*;

use super::list::{listing, visible_indices};
use super::queue::{identities, open_queue, queue_links, queue_taken};
use super::{
    mark_feed_read, mark_group_read, open_unread_feed, open_unread_group, read_feed, read_group,
    unread_links, AppState, AppView, Effect, EffectView, Key, Modifiers, Pane, Question,
    QuestionView,
};
use crate::config::{Config, Ui};
use crate::data::{
    all_items, group_views, item_views, text_view, Feed, FeedView, Group, GroupView, Item, ItemView,
};
use crate::text::{lowercase, lowercased, trim, trimmed};

verus! {

/// The session, the groups and what is left to do after a key or an answer
/// was handled.
pub struct Handled {
    pub app: AppView,
    pub groups: Seq<GroupView>,
    pub effect: EffectView,
}

/// Nothing is left to do.
pub open spec fn settled(app: AppView, groups: Seq<GroupView>) -> Handled {
    Handled { app, groups, effect: EffectView::Nothing }
}

/// The session with the given group selected, and in it the first feed and
/// item.
pub open spec fn with_group(app: AppView, group: usize) -> AppView {
    AppView { selected_group: group, selected_feed: 0, selected_item: 0, ..app }
}

/// The session with the given feed selected, and in it the first item.
pub open spec fn with_feed(app: AppView, feed: usize) -> AppView {
    AppView { selected_feed: feed, selected_item: 0, ..app }
}

/// The session with the focus on the given pane.
pub open spec fn with_focus(app: AppView, focus: Pane) -> AppView {
    AppView { focus, ..app }
}

/// What a key does while the groups have the focus. The arrows move the
/// selection up and down and the focus to the feeds; `a`, `d`, `r` and `O`
/// put a question; `A` marks the selected group read.
pub open spec fn groups_key(key: Key, app: AppView, groups: Seq<GroupView>) -> Handled {
    let selected = app.selected_group as int;
    match key {
        Key::Up => if selected > 0 {
            settled(with_group(app, (selected - 1) as usize), groups)
        } else {
            settled(app, groups)
        },
        Key::Down => if selected + 1 < groups.len() {
            settled(with_group(app, (selected + 1) as usize), groups)
        } else {
            settled(app, groups)
        },
        Key::Right => settled(with_focus(app, Pane::Feeds), groups),
        Key::Char(c) => if c == 'a' {
            Handled { app, groups, effect: EffectView::Ask(QuestionView::NewGroup) }
        } else if selected >= groups.len() {
            settled(app, groups)
        } else if c == 'd' {
            Handled {
                app,
                groups,
                effect: EffectView::Ask(QuestionView::DeleteGroup(groups[selected].name)),
            }
        } else if c == 'r' {
            Handled { app, groups, effect: EffectView::Ask(QuestionView::RenameGroup) }
        } else if c == 'A' {
            settled(app, groups.update(selected, read_group(groups[selected])))
        } else if c == 'O' {
            Handled { app, groups, effect: EffectView::Ask(QuestionView::OpenGroup) }
        } else {
            settled(app, groups)
        },
        _ => settled(app, groups),
    }
}

/// Handles a key while the groups have the focus.
pub fn handle_groups_key(key: Key, app: &mut AppState, groups: &mut Vec<Group>) -> (effect: Effect)
    ensures
        (Handled { app: final(app)@, groups: group_views(final(groups)@), effect: effect@ })
            == groups_key(key, old(app)@, group_views(old(groups)@)),
{
    let selected = app.selected_group;
    match key {
        Key::Up => {
            if selected > 0 {
                app.selected_group = selected - 1;
                app.selected_feed = 0;
                app.selected_item = 0;
            }
            Effect::Nothing
        },
        Key::Down => {
            if selected < groups.len() && selected + 1 < groups.len() {
                app.selected_group = selected + 1;
                app.selected_feed = 0;
                app.selected_item = 0;
            }
            Effect::Nothing
        },
        Key::Right => {
            app.focus = Pane::Feeds;
            Effect::Nothing
        },
        Key::Char(c) => {
            if c == 'a' {
                Effect::Ask(Question::NewGroup)
            } else if selected >= groups.len() {
                Effect::Nothing
            } else if c == 'd' {
                Effect::Ask(Question::DeleteGroup(groups[selected].name.clone()))
            } else if c == 'r' {
                Effect::Ask(Question::RenameGroup)
            } else if c == 'A' {
                mark_group_read(&mut groups[selected]);
                proof {
                    assert(group_views(groups@) =~= group_views(old(groups)@).update(
                        selected as int,
                        read_group(old(groups)@[selected as int]@),
                    ));
                }
                Effect::Nothing
            } else if c == 'O' {
                Effect::Ask(Question::OpenGroup)
            } else {
                Effect::Nothing
            }
        },
        _ => Effect::Nothing,
    }
}

/// The group with one feed replaced.
pub open spec fn with_feed_of(group: GroupView, feed: int, replacement: FeedView) -> GroupView {
    GroupView {
        name: group.name,
        feeds: group.feeds.update(feed, replacement),
        unread_count: group.unread_count,
    }
}

/// What a key does while the feeds have the focus, which is nothing while
/// there is no group. The arrows move the selection up and down and the
/// focus to the groups and to the items; `a` and `d` put a question; `A`
/// marks the selected feed read, and `O` does so too and has the links of
/// its unread items opened.
pub open spec fn feeds_key(key: Key, app: AppView, groups: Seq<GroupView>) -> Handled {
    let g = app.selected_group as int;
    let f = app.selected_feed as int;
    if groups.len() == 0 {
        settled(app, groups)
    } else {
        match key {
            Key::Up => if f > 0 {
                settled(with_feed(app, (f - 1) as usize), groups)
            } else {
                settled(app, groups)
            },
            Key::Down => if g < groups.len() && f + 1 < groups[g].feeds.len() {
                settled(with_feed(app, (f + 1) as usize), groups)
            } else {
                settled(app, groups)
            },
            Key::Left => settled(with_focus(app, Pane::Groups), groups),
            Key::Right => settled(with_focus(app, Pane::Items), groups),
            Key::Char(c) => if g >= groups.len() {
                settled(app, groups)
            } else if c == 'a' {
                Handled { app, groups, effect: EffectView::Ask(QuestionView::NewFeed) }
            } else if f >= groups[g].feeds.len() {
                settled(app, groups)
            } else if c == 'd' {
                Handled {
                    app,
                    groups,
                    effect: EffectView::Ask(QuestionView::DeleteFeed(groups[g].feeds[f].title)),
                }
            } else if c == 'A' {
                settled(
                    app,
                    groups.update(
                        g,
                        with_feed_of(groups[g], f, read_feed(groups[g].feeds[f])).recount(),
                    ),
                )
            } else if c == 'O' {
                Handled {
                    app,
                    groups: groups.update(
                        g,
                        with_feed_of(groups[g], f, read_feed(groups[g].feeds[f])).recount(),
                    ),
                    effect: EffectView::Open(unread_links(groups[g].feeds[f].items)),
                }
            } else {
                settled(app, groups)
            },
            _ => settled(app, groups),
        }
    }
}

/// Handles a key while the feeds have the focus.
pub fn handle_feeds_key(key: Key, app: &mut AppState, groups: &mut Vec<Group>) -> (effect: Effect)
    ensures
        (Handled { app: final(app)@, groups: group_views(final(groups)@), effect: effect@ })
            == feeds_key(key, old(app)@, group_views(old(groups)@)),
{
    let g = app.selected_group;
    let f = app.selected_feed;
    if groups.len() == 0 {
        return Effect::Nothing;
    }
    match key {
        Key::Up => {
            if f > 0 {
                app.selected_feed = f - 1;
                app.selected_item = 0;
            }
            Effect::Nothing
        },
        Key::Down => {
            if g < groups.len() && f < groups[g].feeds.len() && f + 1 < groups[g].feeds.len() {
                app.selected_feed = f + 1;
                app.selected_item = 0;
            }
            Effect::Nothing
        },
        Key::Left => {
            app.focus = Pane::Groups;
            Effect::Nothing
        },
        Key::Right => {
            app.focus = Pane::Items;
            Effect::Nothing
        },
        Key::Char(c) => {
            if g >= groups.len() {
                Effect::Nothing
            } else if c == 'a' {
                Effect::Ask(Question::NewFeed)
            } else if f >= groups[g].feeds.len() {
                Effect::Nothing
            } else if c == 'd' {
                Effect::Ask(Question::DeleteFeed(groups[g].feeds[f].title.clone()))
            } else if c == 'A' {
                mark_feed_read(&mut groups[g].feeds[f]);
                proof {
                    lemma_feed_replaced(old(groups)@, groups@, g as int, f as int);
                }
                let ghost marked = groups@;
                groups[g].update_unread();
                proof {
                    lemma_group_replaced(marked, groups@, g as int);
                    let given = group_views(old(groups)@);
                    let read = read_feed(given[g as int].feeds[f as int]);
                    assert(group_views(marked)[g as int] == with_feed_of(given[g as int], f as int, read));
                    assert(group_views(groups@) =~= given.update(
                        g as int,
                        with_feed_of(given[g as int], f as int, read).recount(),
                    ));
                }
                Effect::Nothing
            } else if c == 'O' {
                let links = open_unread_feed(&mut groups[g].feeds[f]);
                proof {
                    lemma_feed_replaced(old(groups)@, groups@, g as int, f as int);
                }
                let ghost marked = groups@;
                groups[g].update_unread();
                proof {
                    lemma_group_replaced(marked, groups@, g as int);
                    let given = group_views(old(groups)@);
                    let read = read_feed(given[g as int].feeds[f as int]);
                    assert(group_views(marked)[g as int] == with_feed_of(given[g as int], f as int, read));
                    assert(group_views(groups@) =~= given.update(
                        g as int,
                        with_feed_of(given[g as int], f as int, read).recount(),
                    ));
                }
                Effect::Open(links)
            } else {
                Effect::Nothing
            }
        },
        _ => Effect::Nothing,
    }
}

/// The positions of the items that are listed for the selected feed, in
/// the order of the listing; none where no feed is selected.
pub open spec fn shown(app: AppView, groups: Seq<GroupView>) -> Seq<int> {
    let g = app.selected_group as int;
    let f = app.selected_feed as int;
    if g < groups.len() && f < groups[g].feeds.len() {
        listing(
            groups[g].feeds[f].items,
            app.config.ui.unread_only,
            app.search,
            app.config.ui.sort,
        )
    } else {
        Seq::empty()
    }
}

/// The item with the given flags.
pub open spec fn flagged(item: ItemView, read: bool, queued: bool) -> ItemView {
    ItemView {
        id: item.id,
        title: item.title,
        link: item.link,
        desc: item.desc,
        timestamp: item.timestamp,
        read,
        queued,
    }
}

/// The feed with one item replaced.
pub open spec fn with_item_of(feed: FeedView, position: int, replacement: ItemView) -> FeedView {
    FeedView {
        url: feed.url,
        title: feed.title,
        items: feed.items.update(position, replacement),
        etag: feed.etag,
        last_modified: feed.last_modified,
    }
}

/// The group with one item of one feed replaced.
pub open spec fn with_item(group: GroupView, f: int, position: int, replacement: ItemView) -> GroupView {
    with_feed_of(group, f, with_item_of(group.feeds[f], position, replacement))
}

/// The queue without the items of the given identity.
pub open spec fn without_id(queue: Seq<ItemView>, id: Seq<char>) -> Seq<ItemView> {
    queue.filter(|item: ItemView| item.id != id)
}

/// What a key does while the items have the focus, which is nothing while
/// no item is listed. A selection beyond the listing falls back to its last
/// line. The arrows move the selection up and down and the focus to the
/// feeds; Enter has the selected item's link opened; the space bar, `m` and
/// `M` turn its read flag over, on and off, and the group is recounted; `q`
/// puts the item into the queue or takes it out again, Delete takes it out;
/// `Q` moves the focus to the queue.
pub open spec fn items_key(key: Key, app: AppView, groups: Seq<GroupView>) -> Handled {
    let lines = shown(app, groups);
    if lines.len() == 0 {
        settled(app, groups)
    } else {
        let g = app.selected_group as int;
        let f = app.selected_feed as int;
        let at = if app.selected_item >= lines.len() {
            lines.len() - 1
        } else {
            app.selected_item as int
        };
        let app = AppView { selected_item: at as usize, ..app };
        let position = lines[at];
        let item = groups[g].feeds[f].items[position];
        match key {
            Key::Up => if at > 0 {
                settled(AppView { selected_item: (at - 1) as usize, ..app }, groups)
            } else {
                settled(app, groups)
            },
            Key::Down => if at + 1 < lines.len() {
                settled(AppView { selected_item: (at + 1) as usize, ..app }, groups)
            } else {
                settled(app, groups)
            },
            Key::Left => settled(with_focus(app, Pane::Feeds), groups),
            Key::Enter => Handled { app, groups, effect: EffectView::Open(seq![item.link]) },
            Key::Delete => if item.queued {
                settled(
                    AppView { queue: without_id(app.queue, item.id), ..app },
                    groups.update(g, with_item(groups[g], f, position, flagged(item, item.read, false))),
                )
            } else {
                settled(app, groups)
            },
            Key::Char(c) => if c == ' ' {
                settled(
                    app,
                    groups.update(
                        g,
                        with_item(groups[g], f, position, flagged(item, !item.read, item.queued)).recount(),
                    ),
                )
            } else if c == 'm' {
                settled(
                    app,
                    groups.update(
                        g,
                        with_item(groups[g], f, position, flagged(item, true, item.queued)).recount(),
                    ),
                )
            } else if c == 'M' {
                settled(
                    app,
                    groups.update(
                        g,
                        with_item(groups[g], f, position, flagged(item, false, item.queued)).recount(),
                    ),
                )
            } else if c == 'q' {
                if item.queued {
                    settled(
                        AppView { queue: without_id(app.queue, item.id), ..app },
                        groups.update(
                            g,
                            with_item(groups[g], f, position, flagged(item, item.read, false)),
                        ),
                    )
                } else {
                    settled(
                        AppView { queue: app.queue.push(flagged(item, item.read, true)), ..app },
                        groups.update(
                            g,
                            with_item(groups[g], f, position, flagged(item, item.read, true)),
                        ),
                    )
                }
            } else if c == 'Q' {
                settled(with_focus(app, Pane::Queue), groups)
            } else {
                settled(app, groups)
            },
            _ => settled(app, groups),
        }
    }
}

/// Takes the items of the given identity out of the queue.
fn drop_from_queue(queue: &mut Vec<Item>, id: &String)
    ensures
        item_views(final(queue)@) == without_id(item_views(old(queue)@), id@),
{
    let ghost other = |item: ItemView| item.id != id@;
    let mut kept: Vec<Item> = Vec::new();
    let mut i: usize = 0;
    proof {
        reveal(Seq::filter);
    }
    while i < queue.len()
        invariant
            i <= queue.len(),
            *queue == *old(queue),
            other == (|item: ItemView| item.id != id@),
            item_views(kept@) == item_views(queue@.take(i as int)).filter(other),
        decreases queue.len() - i,
    {
        proof {
            let upto = item_views(queue@.take(i as int));
            assert(item_views(queue@.take(i + 1)) =~= upto.push(queue@[i as int]@));
            upto.lemma_filter_push(queue@[i as int]@, other);
        }
        if !(queue[i].id == *id) {
            let copy = queue[i].clone();
            kept.push(copy);
        }
        i = i + 1;
    }
    proof {
        assert(queue@.take(i as int) =~= queue@);
    }
    *queue = kept;
}

/// Sets the flags of one item and, where asked, recounts its group.
fn set_flags(
    groups: &mut Vec<Group>,
    g: usize,
    f: usize,
    position: usize,
    read: bool,
    queued: bool,
    recount: bool,
)
    requires
        g < old(groups)@.len(),
        f < old(groups)@[g as int].feeds@.len(),
        position < old(groups)@[g as int].feeds@[f as int].items@.len(),
    ensures
        group_views(final(groups)@) == group_views(old(groups)@).update(
            g as int,
            if recount {
                with_item(
                    old(groups)@[g as int]@,
                    f as int,
                    position as int,
                    flagged(old(groups)@[g as int]@.feeds[f as int].items[position as int], read, queued),
                ).recount()
            } else {
                with_item(
                    old(groups)@[g as int]@,
                    f as int,
                    position as int,
                    flagged(old(groups)@[g as int]@.feeds[f as int].items[position as int], read, queued),
                )
            },
        ),
        final(groups)@.len() == old(groups)@.len(),
        final(groups)@[g as int].feeds@.len() == old(groups)@[g as int].feeds@.len(),
        final(groups)@[g as int].feeds@[f as int].items@.len() == old(groups)@[g as int].feeds@[f as int].items@.len(),
        final(groups)@[g as int].feeds@[f as int].items@[position as int]@ == flagged(
            old(groups)@[g as int].feeds@[f as int].items@[position as int]@,
            read,
            queued,
        ),
{
    groups[g].feeds[f].items[position].read = read;
    groups[g].feeds[f].items[position].queued = queued;
    proof {
        let before = old(groups)@[g as int].feeds@[f as int];
        let after = groups@[g as int].feeds@[f as int];
        assert(after@.items =~= before@.items.update(
            position as int,
            flagged(before@.items[position as int], read, queued),
        ));
        lemma_feed_replaced(old(groups)@, groups@, g as int, f as int);
    }
    if recount {
        let ghost changed = groups@;
        groups[g].update_unread();
        proof {
            lemma_group_replaced(changed, groups@, g as int);
            assert(group_views(groups@) =~= group_views(old(groups)@).update(
                g as int,
                group_views(changed)[g as int].recount(),
            ));
        }
    }
}

/// Handles a key while the items have the focus.
pub fn handle_items_key(key: Key, app: &mut AppState, groups: &mut Vec<Group>) -> (effect: Effect)
    ensures
        (Handled { app: final(app)@, groups: group_views(final(groups)@), effect: effect@ })
            == items_key(key, old(app)@, group_views(old(groups)@)),
{
    let indices = visible_indices(app, groups);
    if indices.len() == 0 {
        return Effect::Nothing;
    }
    let g = app.selected_group;
    let f = app.selected_feed;
    let count = indices.len();
    if app.selected_item >= count {
        app.selected_item = count - 1;
    }
    let at = app.selected_item;
    let position = indices[at];
    let read = groups[g].feeds[f].items[position].read;
    let queued = groups[g].feeds[f].items[position].queued;
    match key {
        Key::Up => {
            if at > 0 {
                app.selected_item = at - 1;
            }
            Effect::Nothing
        },
        Key::Down => {
            if at + 1 < count {
                app.selected_item = at + 1;
            }
            Effect::Nothing
        },
        Key::Left => {
            app.focus = Pane::Feeds;
            Effect::Nothing
        },
        Key::Enter => {
            let mut links: Vec<String> = Vec::new();
            links.push(groups[g].feeds[f].items[position].link.clone());
            proof {
                assert(crate::text::texts(links@) =~= seq![
                    groups@[g as int].feeds@[f as int].items@[position as int]@.link,
                ]);
            }
            Effect::Open(links)
        },
        Key::Delete => {
            if queued {
                set_flags(groups, g, f, position, read, false, false);
                drop_from_queue(&mut app.queue, &groups[g].feeds[f].items[position].id);
            }
            Effect::Nothing
        },
        Key::Char(c) => {
            if c == ' ' {
                set_flags(groups, g, f, position, !read, queued, true);
            } else if c == 'm' {
                set_flags(groups, g, f, position, true, queued, true);
            } else if c == 'M' {
                set_flags(groups, g, f, position, false, queued, true);
            } else if c == 'q' {
                if queued {
                    set_flags(groups, g, f, position, read, false, false);
                    drop_from_queue(&mut app.queue, &groups[g].feeds[f].items[position].id);
                } else {
                    set_flags(groups, g, f, position, read, true, false);
                    let ghost sofar = app.queue@;
                    let copy = groups[g].feeds[f].items[position].clone();
                    app.queue.push(copy);
                    proof {
                        assert(item_views(app.queue@) =~= item_views(sofar).push(copy@));
                    }
                }
            } else if c == 'Q' {
                app.focus = Pane::Queue;
            }
            Effect::Nothing
        },
        _ => Effect::Nothing,
    }
}

/// What a key does while the queue has the focus. Escape and `q` move the
/// focus to the items. Enter opens everything that is queued, empties the
/// queue and moves the focus to the items.
pub open spec fn queue_key(key: Key, app: AppView, groups: Seq<GroupView>) -> Handled {
    match key {
        Key::Esc => settled(with_focus(app, Pane::Items), groups),
        Key::Char(c) => if c == 'q' {
            settled(with_focus(app, Pane::Items), groups)
        } else {
            settled(app, groups)
        },
        Key::Enter => Handled {
            app: AppView { queue: Seq::empty(), focus: Pane::Items, ..app },
            groups: queue_taken(groups, identities(app.queue)),
            effect: EffectView::Open(queue_links(groups, identities(app.queue))),
        },
        _ => settled(app, groups),
    }
}

/// Handles a key while the queue has the focus.
pub fn handle_queue_key(key: Key, app: &mut AppState, groups: &mut Vec<Group>) -> (effect: Effect)
    ensures
        (Handled { app: final(app)@, groups: group_views(final(groups)@), effect: effect@ })
            == queue_key(key, old(app)@, group_views(old(groups)@)),
{
    match key {
        Key::Esc => {
            app.focus = Pane::Items;
            Effect::Nothing
        },
        Key::Char(c) => {
            if c == 'q' {
                app.focus = Pane::Items;
            }
            Effect::Nothing
        },
        Key::Enter => {
            let links = open_queue(&app.queue, groups);
            app.queue.clear();
            app.focus = Pane::Items;
            proof {
                assert(item_views(app.queue@) =~= Seq::<ItemView>::empty());
            }
            Effect::Open(links)
        },
        _ => Effect::Nothing,
    }
}

/// The settings with the filter for unread items turned over.
pub open spec fn unread_only_toggled(config: Config) -> Config {
    Config {
        ui: Ui {
            theme: config.ui.theme,
            unread_only: !config.ui.unread_only,
            sort: config.ui.sort,
        },
        opener: config.opener,
        keys: config.keys,
        refresh: config.refresh,
    }
}

/// What a key does. Some keys mean the same wherever the focus is: `?`
/// shows or hides the help, `Q` moves the focus to the queue, `q` leaves
/// unless the items or the queue have the focus, `u` without a modifier
/// turns the filter for unread items over, Tab and BackTab move the focus on
/// and back, and `f` with control asks for a search text. Every other key
/// goes to the pane that has the focus; the preview takes none.
pub open spec fn pressed(key: Key, modifiers: Modifiers, app: AppView, groups: Seq<GroupView>) -> Handled {
    if key == Key::Char('?') {
        settled(AppView { show_help: !app.show_help, ..app }, groups)
    } else if key == Key::Char('Q') {
        settled(with_focus(app, Pane::Queue), groups)
    } else if key == Key::Char('q') && app.focus != Pane::Items && app.focus != Pane::Queue {
        Handled { app, groups, effect: EffectView::Quit }
    } else if key == Key::Char('u') && modifiers.none() {
        settled(
            AppView { config: unread_only_toggled(app.config), selected_item: 0, ..app },
            groups,
        )
    } else if key == Key::Tab {
        settled(with_focus(app, app.focus.following()), groups)
    } else if key == Key::BackTab {
        settled(with_focus(app, app.focus.preceding()), groups)
    } else if key == Key::Char('f') && modifiers.control {
        Handled { app, groups, effect: EffectView::Ask(QuestionView::Search) }
    } else {
        match app.focus {
            Pane::Groups => groups_key(key, app, groups),
            Pane::Feeds => feeds_key(key, app, groups),
            Pane::Items => items_key(key, app, groups),
            Pane::Queue => queue_key(key, app, groups),
            Pane::Preview => settled(app, groups),
        }
    }
}

/// Tells whether the key is the given character.
fn is_char(key: Key, wanted: char) -> (same: bool)
    ensures
        same == (key == Key::Char(wanted)),
{
    match key {
        Key::Char(c) => c == wanted,
        _ => false,
    }
}

/// Handles a key.
pub fn handle_key(key: Key, modifiers: Modifiers, app: &mut AppState, groups: &mut Vec<Group>) -> (effect:
    Effect)
    ensures
        (Handled { app: final(app)@, groups: group_views(final(groups)@), effect: effect@ })
            == pressed(key, modifiers, old(app)@, group_views(old(groups)@)),
{
    let on_items = match app.focus {
        Pane::Items => true,
        _ => false,
    };
    let on_queue = match app.focus {
        Pane::Queue => true,
        _ => false,
    };
    let tab = match key {
        Key::Tab => true,
        _ => false,
    };
    let back_tab = match key {
        Key::BackTab => true,
        _ => false,
    };
    if is_char(key, '?') {
        app.show_help = !app.show_help;
        Effect::Nothing
    } else if is_char(key, 'Q') {
        app.focus = Pane::Queue;
        Effect::Nothing
    } else if is_char(key, 'q') && !on_items && !on_queue {
        Effect::Quit
    } else if is_char(key, 'u') && !modifiers.control && !modifiers.others {
        app.config.ui.unread_only = !app.config.ui.unread_only;
        app.selected_item = 0;
        Effect::Nothing
    } else if tab {
        app.focus = app.focus.next();
        Effect::Nothing
    } else if back_tab {
        app.focus = app.focus.previous();
        Effect::Nothing
    } else if is_char(key, 'f') && modifiers.control {
        Effect::Ask(Question::Search)
    } else {
        match app.focus {
            Pane::Groups => handle_groups_key(key, app, groups),
            Pane::Feeds => handle_feeds_key(key, app, groups),
            Pane::Items => handle_items_key(key, app, groups),
            Pane::Queue => handle_queue_key(key, app, groups),
            Pane::Preview => Effect::Nothing,
        }
    }
}

/// What a text says as a reply: the text itself, or nothing where it is
/// empty.
pub open spec fn stated(text: Seq<char>) -> Option<Seq<char>> {
    if text.len() == 0 {
        None
    } else {
        Some(text)
    }
}

/// The reply that a line of input stands for: the line without the white
/// space at its ends, or nothing where nothing is left of it.
pub open spec fn reply_of(line: Seq<char>) -> Option<Seq<char>> {
    stated(trimmed(line))
}

/// Turns a text into a reply: an empty text is no reply.
pub fn state(text: String) -> (reply: Option<String>)
    ensures
        text_view(reply) == stated(text@),
{
    if text.as_str().is_empty() {
        None
    } else {
        Some(text)
    }
}

/// Turns a line of input into a reply for [`answer`].
pub fn reply(line: &str) -> (reply: Option<String>)
    ensures
        text_view(reply) == reply_of(line@),
{
    state(trim(line))
}

/// A word that stands for yes: `y` or `yes`.
pub open spec fn affirmative(word: Seq<char>) -> bool {
    word == "y"@ || word == "yes"@
}

/// The answer is a yes: `y` or `yes`, in any case of the letters.
pub open spec fn said_yes(reply: Option<Seq<char>>) -> bool {
    match reply {
        Some(answer) => affirmative(lowercase(answer)),
        None => false,
    }
}

/// Tells whether a word in lower case stands for yes.
pub fn affirms(word: &String) -> (yes: bool)
    ensures
        yes == affirmative(word@),
{
    *word == String::from_str("y") || *word == String::from_str("yes")
}

/// Tells whether the answer is a yes.
pub fn is_yes(reply: &Option<String>) -> (yes: bool)
    ensures
        yes == said_yes(text_view(*reply)),
{
    match reply {
        Some(answer) => affirms(&lowercased(answer.as_str())),
        None => false,
    }
}

/// The selection after the line `selected` of `left + 1` lines was
/// removed: the same line, or the last one where that is gone.
pub open spec fn after_removal(selected: usize, left: nat) -> usize {
    if selected >= left && selected > 0 {
        (selected - 1) as usize
    } else {
        selected
    }
}

/// What an answer of the user does. A name makes a new group, which is
/// then selected, or renames the selected one; an address makes a new feed
/// in the selected group, titled by its address and then selected; a yes
/// deletes the selected group or feed, or marks the selected group read and
/// has the links of its unread items opened; a search text is kept, and no
/// answer clears it. No name, no address and anything but a yes change
/// nothing.
pub open spec fn answered(
    question: QuestionView,
    reply: Option<Seq<char>>,
    app: AppView,
    groups: Seq<GroupView>,
) -> Handled {
    let g = app.selected_group as int;
    let f = app.selected_feed as int;
    match question {
        QuestionView::NewGroup => match reply {
            Some(name) => settled(
                with_group(app, groups.len() as usize),
                groups.push(GroupView { name, feeds: Seq::empty(), unread_count: 0 }),
            ),
            None => settled(app, groups),
        },
        QuestionView::RenameGroup => match reply {
            Some(name) => if g < groups.len() {
                settled(
                    app,
                    groups.update(
                        g,
                        GroupView {
                            name,
                            feeds: groups[g].feeds,
                            unread_count: groups[g].unread_count,
                        },
                    ),
                )
            } else {
                settled(app, groups)
            },
            None => settled(app, groups),
        },
        QuestionView::DeleteGroup(_) => if said_yes(reply) && g < groups.len() {
            settled(
                with_group(app, after_removal(app.selected_group, (groups.len() - 1) as nat)),
                groups.remove(g),
            )
        } else {
            settled(app, groups)
        },
        QuestionView::OpenGroup => if said_yes(reply) && g < groups.len() {
            Handled {
                app,
                groups: groups.update(g, read_group(groups[g])),
                effect: EffectView::Open(unread_links(all_items(groups[g].feeds))),
            }
        } else {
            settled(app, groups)
        },
        QuestionView::NewFeed => match reply {
            Some(url) => if g < groups.len() {
                settled(
                    with_feed(app, groups[g].feeds.len() as usize),
                    groups.update(
                        g,
                        GroupView {
                            name: groups[g].name,
                            feeds: groups[g].feeds.push(
                                FeedView {
                                    url,
                                    title: url,
                                    items: Seq::empty(),
                                    etag: None,
                                    last_modified: None,
                                },
                            ),
                            unread_count: groups[g].unread_count,
                        },
                    ),
                )
            } else {
                settled(app, groups)
            },
            None => settled(app, groups),
        },
        QuestionView::DeleteFeed(_) => if said_yes(reply) && g < groups.len() && f
            < groups[g].feeds.len() {
            settled(
                with_feed(
                    app,
                    after_removal(app.selected_feed, (groups[g].feeds.len() - 1) as nat),
                ),
                groups.update(
                    g,
                    GroupView {
                        name: groups[g].name,
                        feeds: groups[g].feeds.remove(f),
                        unread_count: groups[g].unread_count,
                    }.recount(),
                ),
            )
        } else {
            settled(app, groups)
        },
        QuestionView::Search => settled(
            AppView {
                search: match reply {
                    Some(text) => text,
                    None => Seq::empty(),
                },
                selected_item: 0,
                ..app
            },
            groups,
        ),
    }
}

/// Handles the user's answer to a question: `reply` is the line that was
/// entered, or nothing where none or an empty one was.
pub fn answer(question: Question, reply: Option<String>, app: &mut AppState, groups: &mut Vec<Group>) -> (effect:
    Effect)
    ensures
        (Handled { app: final(app)@, groups: group_views(final(groups)@), effect: effect@ })
            == answered(question@, text_view(reply), old(app)@, group_views(old(groups)@)),
{
    let g = app.selected_group;
    let f = app.selected_feed;
    match question {
        Question::NewGroup => {
            match reply {
                Some(name) => {
                    let group = Group { name, feeds: Vec::new(), unread_count: 0 };
                    proof {
                        assert(group@.feeds =~= Seq::<FeedView>::empty());
                    }
                    app.selected_group = groups.len();
                    app.selected_feed = 0;
                    app.selected_item = 0;
                    groups.push(group);
                    proof {
                        assert(group_views(groups@) =~= group_views(old(groups)@).push(group@));
                    }
                },
                None => {},
            }
            Effect::Nothing
        },
        Question::RenameGroup => {
            match reply {
                Some(name) => {
                    if g < groups.len() {
                        groups[g].name = name;
                        proof {
                            lemma_group_replaced(old(groups)@, groups@, g as int);
                        }
                    }
                },
                None => {},
            }
            Effect::Nothing
        },
        Question::DeleteGroup(_) => {
            if is_yes(&reply) && g < groups.len() {
                let _ = groups.remove(g);
                if g >= groups.len() && g > 0 {
                    app.selected_group = g - 1;
                }
                app.selected_feed = 0;
                app.selected_item = 0;
                proof {
                    assert(group_views(groups@) =~= group_views(old(groups)@).remove(g as int));
                }
            }
            Effect::Nothing
        },
        Question::OpenGroup => {
            if is_yes(&reply) && g < groups.len() {
                let links = open_unread_group(&mut groups[g]);
                proof {
                    lemma_group_replaced(old(groups)@, groups@, g as int);
                }
                Effect::Open(links)
            } else {
                Effect::Nothing
            }
        },
        Question::NewFeed => {
            match reply {
                Some(url) => {
                    if g < groups.len() {
                        let feed = Feed {
                            url: url.clone(),
                            title: url,
                            items: Vec::new(),
                            etag: None,
                            last_modified: None,
                        };
                        proof {
                            assert(feed@.items =~= Seq::<ItemView>::empty());
                        }
                        app.selected_feed = groups[g].feeds.len();
                        app.selected_item = 0;
                        groups[g].feeds.push(feed);
                        proof {
                            assert(groups@[g as int]@.feeds =~= old(groups)@[g as int]@.feeds.push(
                                feed@,
                            ));
                            lemma_group_replaced(old(groups)@, groups@, g as int);
                        }
                    }
                },
                None => {},
            }
            Effect::Nothing
        },
        Question::DeleteFeed(_) => {
            if is_yes(&reply) && g < groups.len() && f < groups[g].feeds.len() {
                let _ = groups[g].feeds.remove(f);
                if f >= groups[g].feeds.len() && f > 0 {
                    app.selected_feed = f - 1;
                }
                app.selected_item = 0;
                proof {
                    assert(groups@[g as int]@.feeds =~= old(groups)@[g as int]@.feeds.remove(
                        f as int,
                    ));
                }
                groups[g].update_unread();
                proof {
                    lemma_group_replaced(old(groups)@, groups@, g as int);
                }
            }
            Effect::Nothing
        },
        Question::Search => {
            app.search = match reply {
                Some(text) => text,
                None => String::new(),
            };
            app.selected_item = 0;
            Effect::Nothing
        },
    }
}

/// Where one feed of one group was replaced and nothing else was touched,
/// the views differ in that feed alone.
proof fn lemma_feed_replaced(before: Seq<Group>, after: Seq<Group>, g: int, f: int)
    requires
        0 <= g < before.len(),
        0 <= f < before[g].feeds@.len(),
        after.len() == before.len(),
        forall|h: int| 0 <= h < before.len() && h != g ==> after[h] == before[h],
        after[g].name == before[g].name,
        after[g].unread_count == before[g].unread_count,
        after[g].feeds@.len() == before[g].feeds@.len(),
        forall|e: int|
            0 <= e < before[g].feeds@.len() && e != f ==> after[g].feeds@[e] == before[g].feeds@[e],
    ensures
        group_views(after) == group_views(before).update(
            g,
            with_feed_of(before[g]@, f, after[g].feeds@[f]@),
        ),
{
    assert(after[g]@.feeds =~= before[g]@.feeds.update(f, after[g].feeds@[f]@));
}

/// Where one group was replaced and nothing else was touched, the views
/// differ in that group alone.
proof fn lemma_group_replaced(before: Seq<Group>, after: Seq<Group>, g: int)
    requires
        0 <= g < before.len(),
        after.len() == before.len(),
        forall|h: int| 0 <= h < before.len() && h != g ==> after[h] == before[h],
    ensures
        group_views(after) == group_views(before).update(g, after[g]@),
{
}

} // verus!
