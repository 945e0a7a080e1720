//! Opening the queue: every queued identity is looked up in every feed, the
//! first item that has it is opened, marked read and taken off the queue.

use vstd::prelude::*;

use super::keys::{flagged, with_item_of};
use crate::data::{
    feed_views, group_views, item_views, Feed, FeedView, Group, GroupView, Item, ItemView,
};
use crate::text::texts;

verus! {

/// The position of the first item with the given identity.
pub open spec fn first_with_id(items: Seq<ItemView>, id: Seq<char>) -> Option<int>
    decreases items.len(),
{
    if items.len() == 0 {
        None
    } else {
        match first_with_id(items.drop_last(), id) {
            Some(position) => Some(position),
            None => if items.last().id == id {
                Some(items.len() - 1)
            } else {
                None
            },
        }
    }
}

/// The first item with an identity is within the list, has the identity,
/// and no item before it has; there is none exactly when no item has it.
pub proof fn lemma_first_with_id(items: Seq<ItemView>, id: Seq<char>)
    ensures
        match first_with_id(items, id) {
            Some(position) => 0 <= position < items.len() && items[position].id == id && forall|
                i: int,
            | 0 <= i < position ==> (#[trigger] items[i]).id != id,
            None => forall|i: int| 0 <= i < items.len() ==> (#[trigger] items[i]).id != id,
        },
    decreases items.len(),
{
    if items.len() > 0 {
        let front = items.drop_last();
        lemma_first_with_id(front, id);
        match first_with_id(front, id) {
            Some(position) => {
                assert forall|i: int| 0 <= i < position implies (#[trigger] items[i]).id != id by {
                    assert(items[i] == front[i]);
                }
            },
            None => {
                assert forall|i: int| 0 <= i < items.len() - 1 implies (#[trigger] items[i]).id
                    != id by {
                    assert(items[i] == front[i]);
                }
            },
        }
    }
}

/// The item at `position` is opened with the queue: its identity is queued
/// and it is the first item of its feed that has this identity.
pub open spec fn is_taken(items: Seq<ItemView>, ids: Seq<Seq<char>>, position: int) -> bool {
    ids.contains(items[position].id) && first_with_id(items, items[position].id) == Some(position)
}

/// The feed after the queue was opened: every item that was opened with it
/// is read and no longer queued.
pub open spec fn feed_opened(feed: FeedView, ids: Seq<Seq<char>>) -> FeedView {
    FeedView {
        url: feed.url,
        title: feed.title,
        items: Seq::new(
            feed.items.len(),
            |position: int|
                if is_taken(feed.items, ids, position) {
                    flagged(feed.items[position], true, false)
                } else {
                    feed.items[position]
                },
        ),
        etag: feed.etag,
        last_modified: feed.last_modified,
    }
}

/// The group after the queue was opened, recounted.
pub open spec fn group_opened(group: GroupView, ids: Seq<Seq<char>>) -> GroupView {
    GroupView {
        name: group.name,
        feeds: group.feeds.map_values(|feed: FeedView| feed_opened(feed, ids)),
        unread_count: group.unread_count,
    }.recount()
}

/// The groups after the queue with the given identities was opened. An
/// empty queue leaves them as they are.
pub open spec fn queue_taken(groups: Seq<GroupView>, ids: Seq<Seq<char>>) -> Seq<GroupView> {
    if ids.len() == 0 {
        groups
    } else {
        groups.map_values(|group: GroupView| group_opened(group, ids))
    }
}

/// The link that is opened for an identity in a feed: that of the first
/// item with the identity, if there is one.
pub open spec fn feed_link(feed: FeedView, id: Seq<char>) -> Seq<Seq<char>> {
    match first_with_id(feed.items, id) {
        Some(position) => seq![feed.items[position].link],
        None => Seq::empty(),
    }
}

/// The links that are opened for an identity in some feeds, feed after
/// feed.
pub open spec fn feeds_links(feeds: Seq<FeedView>, id: Seq<char>) -> Seq<Seq<char>>
    decreases feeds.len(),
{
    if feeds.len() == 0 {
        Seq::empty()
    } else {
        feeds_links(feeds.drop_last(), id) + feed_link(feeds.last(), id)
    }
}

/// The links that are opened for an identity, group after group.
pub open spec fn groups_links(groups: Seq<GroupView>, id: Seq<char>) -> Seq<Seq<char>>
    decreases groups.len(),
{
    if groups.len() == 0 {
        Seq::empty()
    } else {
        groups_links(groups.drop_last(), id) + feeds_links(groups.last().feeds, id)
    }
}

/// The links that are opened for the identities, one identity after the
/// other.
pub open spec fn queue_links(groups: Seq<GroupView>, ids: Seq<Seq<char>>) -> Seq<Seq<char>>
    decreases ids.len(),
{
    if ids.len() == 0 {
        Seq::empty()
    } else {
        queue_links(groups, ids.drop_last()) + groups_links(groups, ids.last())
    }
}

/// The identities of the items, in the items' order.
pub open spec fn identities(items: Seq<ItemView>) -> Seq<Seq<char>> {
    items.map_values(|item: ItemView| item.id)
}

/// The feed after the first item with the identity was opened.
spec fn feed_taken(feed: FeedView, id: Seq<char>) -> FeedView {
    match first_with_id(feed.items, id) {
        Some(position) => with_item_of(
            feed,
            position,
            flagged(feed.items[position], true, false),
        ),
        None => feed,
    }
}

/// The group after an identity was opened in each of its feeds, recounted.
spec fn group_taken(group: GroupView, id: Seq<char>) -> GroupView {
    GroupView {
        name: group.name,
        feeds: group.feeds.map_values(|feed: FeedView| feed_taken(feed, id)),
        unread_count: group.unread_count,
    }.recount()
}

/// The groups after an identity was opened in each of their feeds.
spec fn groups_taken(groups: Seq<GroupView>, id: Seq<char>) -> Seq<GroupView> {
    groups.map_values(|group: GroupView| group_taken(group, id))
}

/// Two lists whose items have the same identities, place by place, have
/// their first item of an identity at the same place.
proof fn lemma_first_by_identities(a: Seq<ItemView>, b: Seq<ItemView>, id: Seq<char>)
    requires
        a.len() == b.len(),
        forall|k: int| 0 <= k < a.len() ==> (#[trigger] a[k]).id == b[k].id,
    ensures
        first_with_id(a, id) == first_with_id(b, id),
    decreases a.len(),
{
    if a.len() > 0 {
        lemma_first_by_identities(a.drop_last(), b.drop_last(), id);
    }
}

/// Opening one more identity in a feed gives the feed as it is after the
/// longer queue was opened, and opens the link that the untouched feed has
/// for the identity.
proof fn lemma_feed_step(feed: FeedView, ids: Seq<Seq<char>>, id: Seq<char>)
    ensures
        feed_taken(feed_opened(feed, ids), id) == feed_opened(feed, ids.push(id)),
        feed_link(feed_opened(feed, ids), id) == feed_link(feed, id),
        ids.len() == 0 ==> feed_opened(feed, ids) == feed,
{
    let items = feed.items;
    let sofar = feed_opened(feed, ids);
    lemma_first_by_identities(sofar.items, items, id);
    lemma_first_with_id(items, id);
    let longer = ids.push(id);
    assert forall|x: Seq<char>| longer.contains(x) <==> ids.contains(x) || x == id by {
        if ids.contains(x) {
            let at = choose|at: int| 0 <= at < ids.len() && ids[at] == x;
            assert(longer[at] == x);
        }
        if x == id {
            assert(longer[ids.len() as int] == x);
        }
    }
    assert(feed_taken(sofar, id).items =~= feed_opened(feed, longer).items);
    if ids.len() == 0 {
        assert(sofar.items =~= items);
    }
}

/// Opening one more identity in some feeds opens the links that the
/// untouched feeds have for it.
proof fn lemma_feeds_links_step(feeds: Seq<FeedView>, ids: Seq<Seq<char>>, id: Seq<char>)
    ensures
        feeds_links(feeds.map_values(|feed: FeedView| feed_opened(feed, ids)), id) == feeds_links(
            feeds,
            id,
        ),
    decreases feeds.len(),
{
    let sofar = feeds.map_values(|feed: FeedView| feed_opened(feed, ids));
    if feeds.len() > 0 {
        lemma_feeds_links_step(feeds.drop_last(), ids, id);
        assert(sofar.drop_last() =~= feeds.drop_last().map_values(
            |feed: FeedView| feed_opened(feed, ids),
        ));
        lemma_feed_step(feeds.last(), ids, id);
    }
}

/// Opening one more identity gives the groups as they are after the longer
/// queue was opened, and opens the links that the untouched groups have for
/// the identity.
proof fn lemma_queue_step(groups: Seq<GroupView>, ids: Seq<Seq<char>>, id: Seq<char>)
    ensures
        groups_taken(queue_taken(groups, ids), id) == queue_taken(groups, ids.push(id)),
        groups_links(queue_taken(groups, ids), id) == groups_links(groups, id),
    decreases groups.len(),
{
    let sofar = queue_taken(groups, ids);
    let longer = ids.push(id);
    assert forall|g: int| 0 <= g < groups.len() implies group_taken(#[trigger] sofar[g], id)
        == group_opened(groups[g], longer) by {
        let feeds = groups[g].feeds;
        assert forall|f: int| 0 <= f < feeds.len() implies feed_taken(
            #[trigger] sofar[g].feeds[f],
            id,
        ) == feed_opened(feeds[f], longer) by {
            lemma_feed_step(feeds[f], ids, id);
        }
        assert(sofar[g].feeds.map_values(|feed: FeedView| feed_taken(feed, id))
            =~= feeds.map_values(|feed: FeedView| feed_opened(feed, longer)));
    }
    if groups.len() > 0 {
        lemma_queue_step(groups.drop_last(), ids, id);
        assert(sofar.drop_last() =~= queue_taken(groups.drop_last(), ids));
        if ids.len() > 0 {
            lemma_feeds_links_step(groups.last().feeds, ids, id);
        }
    }
}

/// Finds the first item with the given identity.
fn find_first(items: &Vec<Item>, id: &String) -> (found: Option<usize>)
    ensures
        match found {
            Some(position) => first_with_id(item_views(items@), id@) == Some(position as int)
                && position < items@.len(),
            None => first_with_id(item_views(items@), id@) is None,
        },
{
    let mut i: usize = 0;
    while i < items.len()
        invariant
            i <= items.len(),
            first_with_id(item_views(items@.take(i as int)), id@) is None,
        decreases items.len() - i,
    {
        proof {
            let wider = item_views(items@.take(i + 1));
            assert(wider.drop_last() =~= item_views(items@.take(i as int)));
        }
        if items[i].id == *id {
            proof {
                assert(item_views(items@).take(i + 1) =~= item_views(items@.take(i + 1)));
                lemma_found_stays(item_views(items@), id@, i + 1);
            }
            return Some(i);
        }
        i = i + 1;
    }
    proof {
        assert(items@.take(i as int) =~= items@);
    }
    None
}

/// What is found among the first `count` items is found among all.
proof fn lemma_found_stays(items: Seq<ItemView>, id: Seq<char>, count: int)
    requires
        0 <= count <= items.len(),
        first_with_id(items.take(count), id) is Some,
    ensures
        first_with_id(items, id) == first_with_id(items.take(count), id),
    decreases items.len() - count,
{
    if count < items.len() {
        assert(items.take(count + 1).drop_last() =~= items.take(count));
        lemma_found_stays(items, id, count + 1);
    } else {
        assert(items.take(count) =~= items);
    }
}

/// Opens an identity in a feed: the first item that has it is marked read
/// and unqueued, and its link is added to `links`.
fn take_from_feed(feed: &mut Feed, id: &String, links: &mut Vec<String>)
    ensures
        final(feed)@ == feed_taken(old(feed)@, id@),
        texts(final(links)@) == texts(old(links)@) + feed_link(old(feed)@, id@),
{
    match find_first(&feed.items, id) {
        Some(position) => {
            links.push(feed.items[position].link.clone());
            feed.items[position].read = true;
            feed.items[position].queued = false;
            proof {
                let item = old(feed)@.items[position as int];
                assert(feed@.items =~= old(feed)@.items.update(
                    position as int,
                    flagged(item, true, false),
                ));
            }
        },
        None => {},
    }
}

/// Opens an identity in each feed of a group and recounts the group.
fn take_from_group(group: &mut Group, id: &String, links: &mut Vec<String>)
    ensures
        final(group)@ == group_taken(old(group)@, id@),
        texts(final(links)@) == texts(old(links)@) + feeds_links(old(group)@.feeds, id@),
{
    let mut k: usize = 0;
    while k < group.feeds.len()
        invariant
            k <= group.feeds.len(),
            group.feeds@.len() == old(group).feeds@.len(),
            group.name == old(group).name,
            group.unread_count == old(group).unread_count,
            forall|j: int|
                0 <= j < k ==> (#[trigger] group.feeds@[j])@ == feed_taken(
                    old(group).feeds@[j]@,
                    id@,
                ),
            forall|j: int|
                k <= j < group.feeds@.len() ==> #[trigger] group.feeds@[j] == old(group).feeds@[j],
            texts(links@) == texts(old(links)@) + feeds_links(
                feed_views(old(group).feeds@.take(k as int)),
                id@,
            ),
        decreases group.feeds.len() - k,
    {
        proof {
            let wider = feed_views(old(group).feeds@.take(k + 1));
            assert(wider.drop_last() =~= feed_views(old(group).feeds@.take(k as int)));
        }
        take_from_feed(&mut group.feeds[k], id, links);
        k = k + 1;
    }
    proof {
        assert(old(group).feeds@.take(k as int) =~= old(group).feeds@);
        assert(group@.feeds =~= old(group)@.feeds.map_values(|feed: FeedView| feed_taken(feed, id@)));
    }
    group.update_unread();
}

/// Opens an identity in every feed of every group.
fn take_from_groups(groups: &mut Vec<Group>, id: &String, links: &mut Vec<String>)
    ensures
        group_views(final(groups)@) == groups_taken(group_views(old(groups)@), id@),
        texts(final(links)@) == texts(old(links)@) + groups_links(group_views(old(groups)@), id@),
{
    let mut g: usize = 0;
    while g < groups.len()
        invariant
            g <= groups.len(),
            groups@.len() == old(groups)@.len(),
            forall|j: int|
                0 <= j < g ==> (#[trigger] groups@[j])@ == group_taken(old(groups)@[j]@, id@),
            forall|j: int| g <= j < groups@.len() ==> #[trigger] groups@[j] == old(groups)@[j],
            texts(links@) == texts(old(links)@) + groups_links(
                group_views(old(groups)@.take(g as int)),
                id@,
            ),
        decreases groups.len() - g,
    {
        proof {
            let wider = group_views(old(groups)@.take(g + 1));
            assert(wider.drop_last() =~= group_views(old(groups)@.take(g as int)));
        }
        take_from_group(&mut groups[g], id, links);
        g = g + 1;
    }
    proof {
        assert(old(groups)@.take(g as int) =~= old(groups)@);
    }
}

/// Opens everything that is queued. In every feed, the first item of each
/// queued identity is marked read and unqueued; then every group is
/// recounted. An empty queue leaves the groups as they are. Returns the
/// links of the items that were opened, for the caller to open: identity by
/// identity in the order of the queue, and for each identity feed by feed.
pub fn open_queue(queue: &Vec<Item>, groups: &mut Vec<Group>) -> (links: Vec<String>)
    ensures
        group_views(final(groups)@) == queue_taken(
            group_views(old(groups)@),
            identities(item_views(queue@)),
        ),
        texts(links@) == queue_links(group_views(old(groups)@), identities(item_views(queue@))),
{
    let ghost ids = identities(item_views(queue@));
    let ghost given = group_views(old(groups)@);
    let mut links: Vec<String> = Vec::new();
    let mut n: usize = 0;
    while n < queue.len()
        invariant
            n <= queue.len(),
            ids == identities(item_views(queue@)),
            given == group_views(old(groups)@),
            group_views(groups@) == queue_taken(given, ids.take(n as int)),
            texts(links@) == queue_links(given, ids.take(n as int)),
        decreases queue.len() - n,
    {
        proof {
            assert(ids.take(n + 1).drop_last() =~= ids.take(n as int));
            assert(ids.take(n + 1) =~= ids.take(n as int).push(queue@[n as int]@.id));
            lemma_queue_step(given, ids.take(n as int), queue@[n as int]@.id);
        }
        take_from_groups(groups, &queue[n].id, &mut links);
        n = n + 1;
    }
    proof {
        assert(ids.take(n as int) =~= ids);
    }
    links
}

} // verus!
