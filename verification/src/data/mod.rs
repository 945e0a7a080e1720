//! Items, feeds and groups, with the mathematical views that the contracts
//! of this crate speak of.

use vstd::prelude::*;

pub mod identity;
pub mod merge;
pub mod order;

verus! {

/// One entry of a feed, as stored.
#[derive(Debug, PartialEq, Eq)]
pub struct Item {
    pub id: String,
    pub title: String,
    pub link: String,
    pub desc: String,
    pub timestamp: i64,
    pub read: bool,
    pub queued: bool,
}

/// What an [`Item`] holds, as plain values.
pub struct ItemView {
    pub id: Seq<char>,
    pub title: Seq<char>,
    pub link: Seq<char>,
    pub desc: Seq<char>,
    pub timestamp: i64,
    pub read: bool,
    pub queued: bool,
}

impl View for Item {
    type V = ItemView;

    open spec fn view(&self) -> ItemView {
        ItemView {
            id: self.id@,
            title: self.title@,
            link: self.link@,
            desc: self.desc@,
            timestamp: self.timestamp,
            read: self.read,
            queued: self.queued,
        }
    }
}

impl Clone for Item {
    fn clone(&self) -> (copy: Self)
        ensures
            copy == *self,
    {
        Item {
            id: self.id.clone(),
            title: self.title.clone(),
            link: self.link.clone(),
            desc: self.desc.clone(),
            timestamp: self.timestamp,
            read: self.read,
            queued: self.queued,
        }
    }
}

/// The views of a sequence of items, in the same order.
pub open spec fn item_views(items: Seq<Item>) -> Seq<ItemView> {
    items.map_values(|item: Item| item@)
}

/// The number of items that are not marked read.
pub open spec fn unread(items: Seq<ItemView>) -> nat {
    items.filter(|item: ItemView| !item.read).len()
}

/// A count as a `usize` holds it: the count itself, or the largest `usize`
/// where the count is beyond it.
pub open spec fn capped(count: nat) -> nat {
    if count <= usize::MAX {
        count
    } else {
        usize::MAX as nat
    }
}

/// The view of an optional string.
pub open spec fn text_view(text: Option<String>) -> Option<Seq<char>> {
    match text {
        Some(s) => Some(s@),
        None => None,
    }
}

/// The view of an optional string slice.
pub open spec fn slice_view(text: Option<&str>) -> Option<Seq<char>> {
    match text {
        Some(s) => Some(s@),
        None => None,
    }
}

/// A subscribed feed: its address, its items (newest first after a merge)
/// and the validators the server sent with the last payload.
#[derive(Debug, PartialEq, Eq)]
pub struct Feed {
    pub url: String,
    pub title: String,
    pub items: Vec<Item>,
    pub etag: Option<String>,
    pub last_modified: Option<String>,
}

/// What a [`Feed`] holds, as plain values.
pub struct FeedView {
    pub url: Seq<char>,
    pub title: Seq<char>,
    pub items: Seq<ItemView>,
    pub etag: Option<Seq<char>>,
    pub last_modified: Option<Seq<char>>,
}

impl View for Feed {
    type V = FeedView;

    open spec fn view(&self) -> FeedView {
        FeedView {
            url: self.url@,
            title: self.title@,
            items: item_views(self.items@),
            etag: text_view(self.etag),
            last_modified: text_view(self.last_modified),
        }
    }
}

impl Clone for Feed {
    fn clone(&self) -> (copy: Self)
        ensures
            copy@ == self@,
    {
        let copy = Feed {
            url: self.url.clone(),
            title: self.title.clone(),
            items: self.items.clone(),
            etag: self.etag.clone(),
            last_modified: self.last_modified.clone(),
        };
        copy
    }
}

impl Default for Feed {
    fn default() -> (feed: Feed)
        ensures
            feed@ == (FeedView {
                url: Seq::empty(),
                title: Seq::empty(),
                items: Seq::empty(),
                etag: None,
                last_modified: None,
            }),
    {
        let feed = Feed {
            url: String::new(),
            title: String::new(),
            items: Vec::new(),
            etag: None,
            last_modified: None,
        };
        proof {
            assert(feed@.items =~= Seq::<ItemView>::empty());
        }
        feed
    }
}

/// The views of a sequence of feeds, in the same order.
pub open spec fn feed_views(feeds: Seq<Feed>) -> Seq<FeedView> {
    feeds.map_values(|feed: Feed| feed@)
}

/// All items of the given feeds, feed after feed.
pub open spec fn all_items(feeds: Seq<FeedView>) -> Seq<ItemView>
    decreases feeds.len(),
{
    if feeds.len() == 0 {
        Seq::empty()
    } else {
        all_items(feeds.drop_last()) + feeds.last().items
    }
}

/// A named list of feeds with a cached count of unread items.
#[derive(Debug, PartialEq, Eq)]
pub struct Group {
    pub name: String,
    pub feeds: Vec<Feed>,
    pub unread_count: usize,
}

/// What a [`Group`] holds, as plain values.
pub struct GroupView {
    pub name: Seq<char>,
    pub feeds: Seq<FeedView>,
    pub unread_count: nat,
}

impl GroupView {
    /// The number of unread items over all feeds of the group.
    pub open spec fn unread_total(self) -> nat {
        unread(all_items(self.feeds))
    }

    /// The group as a recount leaves it.
    pub open spec fn recount(self) -> GroupView {
        GroupView { name: self.name, feeds: self.feeds, unread_count: self.recounted() }
    }

    /// The value that a recount stores: the number of unread items, as a
    /// `usize` holds it.
    pub open spec fn recounted(self) -> nat {
        capped(self.unread_total())
    }
}

impl View for Group {
    type V = GroupView;

    open spec fn view(&self) -> GroupView {
        GroupView {
            name: self.name@,
            feeds: feed_views(self.feeds@),
            unread_count: self.unread_count as nat,
        }
    }
}

/// The views of a sequence of groups, in the same order.
pub open spec fn group_views(groups: Seq<Group>) -> Seq<GroupView> {
    groups.map_values(|group: Group| group@)
}

impl Clone for Group {
    fn clone(&self) -> (copy: Self)
        ensures
            copy@ == self@,
    {
        let mut feeds: Vec<Feed> = Vec::new();
        let mut k: usize = 0;
        while k < self.feeds.len()
            invariant
                k <= self.feeds.len(),
                feed_views(feeds@) == feed_views(self.feeds@.take(k as int)),
            decreases self.feeds.len() - k,
        {
            let copy = self.feeds[k].clone();
            feeds.push(copy);
            k = k + 1;
            proof {
                assert(feed_views(self.feeds@.take(k as int)) =~= feed_views(
                    self.feeds@.take(k - 1),
                ).push(self.feeds@[k - 1]@));
            }
        }
        proof {
            assert(self.feeds@.take(k as int) =~= self.feeds@);
        }
        Group { name: self.name.clone(), feeds, unread_count: self.unread_count }
    }
}

impl Default for Group {
    fn default() -> (group: Group)
        ensures
            group@ == (GroupView { name: Seq::empty(), feeds: Seq::empty(), unread_count: 0 }),
    {
        let group = Group { name: String::new(), feeds: Vec::new(), unread_count: 0 };
        proof {
            assert(group@.feeds =~= Seq::<FeedView>::empty());
        }
        group
    }
}

/// Counts the unread items of one list.
fn count_unread(items: &Vec<Item>) -> (count: usize)
    ensures
        count == unread(item_views(items@)),
{
    let mut count: usize = 0;
    let mut i: usize = 0;
    while i < items.len()
        invariant
            i <= items.len(),
            count == unread(item_views(items@.take(i as int))),
            count <= i,
        decreases items.len() - i,
    {
        proof {
            lemma_unread_step(items@, i as int);
        }
        if !items[i].read {
            count = count + 1;
        }
        i = i + 1;
    }
    proof {
        assert(items@.take(i as int) =~= items@);
    }
    count
}

/// Taking one more item adds one to the unread count exactly when that item
/// is unread.
proof fn lemma_unread_step(items: Seq<Item>, i: int)
    requires
        0 <= i < items.len(),
    ensures
        unread(item_views(items.take(i + 1))) == unread(item_views(items.take(i))) + (if items[i].read {
            0nat
        } else {
            1nat
        }),
{
    let unread_pred = |item: ItemView| !item.read;
    let before = item_views(items.take(i));
    assert(item_views(items.take(i + 1)) =~= before.push(items[i]@));
    before.lemma_filter_push(items[i]@, unread_pred);
}

impl Group {
    /// Recomputes the cached unread count: it becomes the number of items
    /// in the group's feeds that are not marked read (the largest `usize`,
    /// should there be more). Name and feeds stay as they are.
    pub fn update_unread(&mut self)
        ensures
            final(self)@ == old(self)@.recount(),
            old(self)@.unread_total() <= usize::MAX ==> final(self).unread_count == old(self)@.unread_total(),
            final(self).name == old(self).name,
            final(self).feeds == old(self).feeds,
    {
        let mut total: usize = 0;
        let mut k: usize = 0;
        while k < self.feeds.len()
            invariant
                k <= self.feeds.len(),
                *self == *old(self),
                total == capped(unread(all_items(feed_views(self.feeds@.take(k as int))))),
            decreases self.feeds.len() - k,
        {
            let count = count_unread(&self.feeds[k].items);
            proof {
                lemma_all_items_step(self.feeds@, k as int);
                let before = all_items(feed_views(self.feeds@.take(k as int)));
                let unread_pred = |item: ItemView| !item.read;
                Seq::filter_distributes_over_add(before, self.feeds@[k as int]@.items, unread_pred);
            }
            total = total.saturating_add(count);
            k = k + 1;
        }
        proof {
            assert(self.feeds@.take(k as int) =~= self.feeds@);
        }
        self.unread_count = total;
    }
}

/// Taking one more feed appends its items.
proof fn lemma_all_items_step(feeds: Seq<Feed>, k: int)
    requires
        0 <= k < feeds.len(),
    ensures
        all_items(feed_views(feeds.take(k + 1))) == all_items(feed_views(feeds.take(k)))
            + feeds[k]@.items,
{
    let wider = feed_views(feeds.take(k + 1));
    assert(wider.drop_last() =~= feed_views(feeds.take(k)));
}

} // verus!
