//! Merging a freshly parsed payload into a stored feed: the payload decides
//! which items there are and what they say, the stored items decide which of
//! them are read or queued.

use vstd::prelude::*;

use super::identity::identity;
use super::order::{
    at_time, is_newest_first, lemma_newest_first_members, lemma_newest_first_permutes,
    lemma_newest_first_sorted, lemma_newest_first_stable, newest_first, sort_newest_first,
};
use super::{item_views, text_view, Feed, FeedView, Item, ItemView};

verus! {

/// One entry of a parsed feed document.
#[derive(Debug, PartialEq, Eq)]
pub struct ParsedEntry {
    /// The id that the document gives the entry, if any.
    pub id: Option<String>,
    /// The entry's links; the first one is the entry's link.
    pub links: Vec<String>,
    pub title: Option<String>,
    pub summary: Option<String>,
    /// Publication time, in seconds since the epoch.
    pub published: Option<i64>,
    /// Time of the last update, in seconds since the epoch.
    pub updated: Option<i64>,
}

/// What a [`ParsedEntry`] holds, as plain values.
pub struct EntryView {
    pub id: Option<Seq<char>>,
    pub links: Seq<Seq<char>>,
    pub title: Option<Seq<char>>,
    pub summary: Option<Seq<char>>,
    pub published: Option<i64>,
    pub updated: Option<i64>,
}

impl EntryView {
    /// The entry's link: its first link, or the empty text.
    pub open spec fn link(self) -> Seq<char> {
        if self.links.len() > 0 {
            self.links[0]
        } else {
            Seq::empty()
        }
    }

    /// The identity under which the entry is stored.
    pub open spec fn identity(self) -> Seq<char> {
        identity(self.id, self.link())
    }

    /// The entry's time: when it was published, else when it was last
    /// updated, else zero.
    pub open spec fn timestamp(self) -> i64 {
        match self.published {
            Some(at) => at,
            None => match self.updated {
                Some(at) => at,
                None => 0,
            },
        }
    }
}

impl View for ParsedEntry {
    type V = EntryView;

    open spec fn view(&self) -> EntryView {
        EntryView {
            id: text_view(self.id),
            links: self.links@.map_values(|link: String| link@),
            title: text_view(self.title),
            summary: text_view(self.summary),
            published: self.published,
            updated: self.updated,
        }
    }
}

/// A parsed feed document: the payload of a fetch.
#[derive(Debug, PartialEq, Eq)]
pub struct ParsedFeed {
    pub title: Option<String>,
    pub entries: Vec<ParsedEntry>,
}

/// What a [`ParsedFeed`] holds, as plain values.
pub struct ParsedFeedView {
    pub title: Option<Seq<char>>,
    pub entries: Seq<EntryView>,
}

impl View for ParsedFeed {
    type V = ParsedFeedView;

    open spec fn view(&self) -> ParsedFeedView {
        ParsedFeedView {
            title: text_view(self.title),
            entries: self.entries@.map_values(|entry: ParsedEntry| entry@),
        }
    }
}

/// The text, or the empty text where there is none.
pub open spec fn text_or_empty(text: Option<Seq<char>>) -> Seq<char> {
    match text {
        Some(t) => t,
        None => Seq::empty(),
    }
}

/// The read and queued flags stored under an identity: those of the last
/// stored item that has it.
pub open spec fn kept_flags(stored: Seq<ItemView>, id: Seq<char>) -> Option<(bool, bool)>
    decreases stored.len(),
{
    if stored.len() == 0 {
        None
    } else if stored.last().id == id {
        Some((stored.last().read, stored.last().queued))
    } else {
        kept_flags(stored.drop_last(), id)
    }
}

/// The flags, or both unset where there are none.
pub open spec fn flags_or_unset(flags: Option<(bool, bool)>) -> (bool, bool) {
    match flags {
        Some(kept) => kept,
        None => (false, false),
    }
}

/// The item that a payload entry becomes: everything it says is the
/// entry's, its flags are those stored under its identity, or unset.
pub open spec fn fresh_item(stored: Seq<ItemView>, entry: EntryView) -> ItemView {
    let flags = flags_or_unset(kept_flags(stored, entry.identity()));
    ItemView {
        id: entry.identity(),
        title: text_or_empty(entry.title),
        link: entry.link(),
        desc: text_or_empty(entry.summary),
        timestamp: entry.timestamp(),
        read: flags.0,
        queued: flags.1,
    }
}

/// The items that the entries become, in the entries' order.
pub open spec fn fresh_items(stored: Seq<ItemView>, entries: Seq<EntryView>) -> Seq<ItemView> {
    entries.map_values(|entry: EntryView| fresh_item(stored, entry))
}

/// The feed after a payload was merged into it.
pub open spec fn merged(feed: FeedView, parsed: ParsedFeedView) -> FeedView {
    FeedView {
        url: feed.url,
        title: match parsed.title {
            Some(title) => title,
            None => feed.title,
        },
        items: newest_first(fresh_items(feed.items, parsed.entries)),
        etag: feed.etag,
        last_modified: feed.last_modified,
    }
}

/// Looks up the flags stored under an identity.
fn find_flags(stored: &Vec<Item>, id: &String) -> (flags: Option<(bool, bool)>)
    ensures
        flags == kept_flags(item_views(stored@), id@),
{
    let mut k: usize = stored.len();
    proof {
        assert(stored@.take(k as int) =~= stored@);
    }
    while k > 0
        invariant
            k <= stored.len(),
            kept_flags(item_views(stored@), id@) == kept_flags(
                item_views(stored@.take(k as int)),
                id@,
            ),
        decreases k,
    {
        proof {
            let upto = item_views(stored@.take(k as int));
            assert(upto.drop_last() =~= item_views(stored@.take(k - 1)));
        }
        if stored[k - 1].id == *id {
            return Some((stored[k - 1].read, stored[k - 1].queued));
        }
        k = k - 1;
    }
    None
}

/// Builds the item that `entry` becomes beside the stored items.
fn item_of(stored: &Vec<Item>, entry: ParsedEntry) -> (item: Item)
    ensures
        item@ == fresh_item(item_views(stored@), entry@),
{
    let ParsedEntry { id, links, title, summary, published, updated } = entry;
    let mut links = links;
    let link = if links.len() > 0 {
        links.swap_remove(0)
    } else {
        String::new()
    };
    let raw = match &id {
        Some(text) => Some(text.as_str()),
        None => None,
    };
    let id = Item::gen_id(raw, link.as_str());
    let flags = find_flags(stored, &id);
    let (read, queued) = match flags {
        Some(kept) => kept,
        None => (false, false),
    };
    let timestamp = match published {
        Some(at) => at,
        None => match updated {
            Some(at) => at,
            None => 0,
        },
    };
    let item = Item {
        id,
        title: match title {
            Some(text) => text,
            None => String::new(),
        },
        link,
        desc: match summary {
            Some(text) => text,
            None => String::new(),
        },
        timestamp,
        read,
        queued,
    };
    item
}

impl Feed {
    /// Merges a parsed payload into the feed. The payload's title, where it
    /// has one, replaces the feed's. The items become those of the payload,
    /// newest first and of equal time in the payload's order; each keeps the
    /// read and queued flags stored under its identity. Stored items whose
    /// identity the payload lacks are gone.
    pub fn merge_items(&mut self, parsed: ParsedFeed)
        ensures
            final(self)@ == merged(old(self)@, parsed@),
            is_newest_first(final(self)@.items),
            final(self)@.items.len() == parsed@.entries.len(),
    {
        let ghost stored = old(self)@.items;
        let ghost entries = parsed@.entries;
        let ParsedFeed { title, entries: parsed_entries } = parsed;
        if let Some(text) = title {
            self.title = text;
        }
        let mut fresh: Vec<Item> = Vec::new();
        for entry in iter: parsed_entries
            invariant
                iter.seq() == parsed_entries@,
                entries == parsed_entries@.map_values(|entry: ParsedEntry| entry@),
                stored == item_views(self.items@),
                item_views(fresh@) == fresh_items(stored, entries.take(iter.index() as int)),
        {
            let ghost sofar = item_views(fresh@);
            let item = item_of(&self.items, entry);
            fresh.push(item);
            proof {
                assert(item_views(fresh@) =~= sofar.push(item@));
                assert(fresh_items(stored, entries.take(iter.index() + 1)) =~= sofar.push(item@));
            }
        }
        proof {
            assert(entries.take(entries.len() as int) =~= entries);
            lemma_newest_first_permutes(fresh_items(stored, entries));
        }
        self.items = sort_newest_first(fresh);
    }
}

/// The flags kept for an identity are those of the last stored item that
/// has it; none are kept exactly when no stored item has it.
pub proof fn lemma_kept_flags(stored: Seq<ItemView>, id: Seq<char>)
    ensures
        match kept_flags(stored, id) {
            Some(kept) => exists|i: int|
                0 <= i < stored.len() && (#[trigger] stored[i]).id == id && kept == (
                    stored[i].read,
                    stored[i].queued,
                ) && forall|j: int| i < j < stored.len() ==> (#[trigger] stored[j]).id != id,
            None => forall|i: int| 0 <= i < stored.len() ==> (#[trigger] stored[i]).id != id,
        },
    decreases stored.len(),
{
    if stored.len() > 0 && stored.last().id != id {
        let front = stored.drop_last();
        lemma_kept_flags(front, id);
        match kept_flags(front, id) {
            Some(kept) => {
                let i = choose|i: int|
                    0 <= i < front.len() && (#[trigger] front[i]).id == id && kept == (
                        front[i].read,
                        front[i].queued,
                    ) && forall|j: int| i < j < front.len() ==> (#[trigger] front[j]).id != id;
                assert forall|j: int| i < j < stored.len() implies (#[trigger] stored[j]).id
                    != id by {
                    if j < front.len() {
                        assert(stored[j] == front[j]);
                    }
                }
            },
            None => {
                assert forall|i: int| 0 <= i < stored.len() implies (#[trigger] stored[i]).id
                    != id by {
                    if i < front.len() {
                        assert(stored[i] == front[i]);
                    }
                }
            },
        }
    }
}

/// Every merged item is what some payload entry became, and every payload
/// entry became some merged item.
pub proof fn lemma_merged_members(feed: FeedView, parsed: ParsedFeedView)
    ensures
        forall|m: int|
            0 <= m < merged(feed, parsed).items.len() ==> exists|k: int|
                0 <= k < parsed.entries.len() && (#[trigger] merged(feed, parsed).items[m])
                    == fresh_item(feed.items, parsed.entries[k]),
        forall|k: int|
            0 <= k < parsed.entries.len() ==> merged(feed, parsed).items.contains(
                fresh_item(feed.items, #[trigger] parsed.entries[k]),
            ),
{
    let fresh = fresh_items(feed.items, parsed.entries);
    let items = merged(feed, parsed).items;
    assert forall|m: int| 0 <= m < items.len() implies exists|k: int|
        0 <= k < parsed.entries.len() && (#[trigger] items[m]) == fresh_item(
            feed.items,
            parsed.entries[k],
        ) by {
        lemma_newest_first_members(fresh, items[m]);
        let k = choose|k: int| 0 <= k < fresh.len() && fresh[k] == items[m];
    }
    assert forall|k: int| 0 <= k < parsed.entries.len() implies items.contains(
        fresh_item(feed.items, #[trigger] parsed.entries[k]),
    ) by {
        lemma_newest_first_members(fresh, fresh[k]);
    }
}

/// Merging the same payload a second time changes nothing: the same items
/// with the same identities, in the same order, with the same flags.
pub proof fn lemma_merge_idempotent(feed: FeedView, parsed: ParsedFeedView)
    ensures
        merged(merged(feed, parsed), parsed) == merged(feed, parsed),
{
    let once = merged(feed, parsed);
    let fresh = fresh_items(feed.items, parsed.entries);
    lemma_merged_members(feed, parsed);
    assert forall|k: int| 0 <= k < parsed.entries.len() implies fresh_item(
        once.items,
        #[trigger] parsed.entries[k],
    ) == fresh_item(feed.items, parsed.entries[k]) by {
        let entry = parsed.entries[k];
        let id = entry.identity();
        lemma_kept_flags(once.items, id);
    }
    assert(fresh_items(once.items, parsed.entries) =~= fresh);
}

/// A stored item whose identity recurs in the payload keeps its read and
/// queued flags, while title, link, description and time become the
/// entry's. Where several stored items share the identity, the flags that
/// are kept are those of the last of them: the law is stated of a stored
/// item that no later one of its identity disagrees with.
pub proof fn lemma_merge_keeps_flags(feed: FeedView, parsed: ParsedFeedView, i: int, k: int)
    requires
        0 <= i < feed.items.len(),
        0 <= k < parsed.entries.len(),
        parsed.entries[k].identity() == feed.items[i].id,
        forall|j: int|
            i < j < feed.items.len() && (#[trigger] feed.items[j]).id == feed.items[i].id
                ==> feed.items[j].read == feed.items[i].read && feed.items[j].queued
                == feed.items[i].queued,
    ensures
        merged(feed, parsed).items.contains(
            ItemView {
                id: feed.items[i].id,
                title: text_or_empty(parsed.entries[k].title),
                link: parsed.entries[k].link(),
                desc: text_or_empty(parsed.entries[k].summary),
                timestamp: parsed.entries[k].timestamp(),
                read: feed.items[i].read,
                queued: feed.items[i].queued,
            },
        ),
        forall|m: int|
            0 <= m < merged(feed, parsed).items.len() && (#[trigger] merged(
                feed,
                parsed,
            ).items[m]).id == feed.items[i].id ==> merged(feed, parsed).items[m].read
                == feed.items[i].read && merged(feed, parsed).items[m].queued
                == feed.items[i].queued,
{
    let id = feed.items[i].id;
    let items = merged(feed, parsed).items;
    lemma_kept_flags(feed.items, id);
    lemma_merged_members(feed, parsed);
}

/// A stored item whose identity no payload entry has is gone after the
/// merge: no merged item has that identity.
pub proof fn lemma_merge_drops_absent(feed: FeedView, parsed: ParsedFeedView, id: Seq<char>)
    requires
        forall|k: int|
            0 <= k < parsed.entries.len() ==> (#[trigger] parsed.entries[k]).identity() != id,
    ensures
        forall|m: int|
            0 <= m < merged(feed, parsed).items.len() ==> (#[trigger] merged(
                feed,
                parsed,
            ).items[m]).id != id,
{
    lemma_merged_members(feed, parsed);
}

/// Merged items of equal time stand in the order of their entries in the
/// payload.
pub proof fn lemma_merge_keeps_payload_order(feed: FeedView, parsed: ParsedFeedView, timestamp: i64)
    ensures
        at_time(merged(feed, parsed).items, timestamp) == at_time(
            fresh_items(feed.items, parsed.entries),
            timestamp,
        ),
{
    lemma_newest_first_stable(fresh_items(feed.items, parsed.entries), timestamp);
}

/// After a merge no item is newer than the one before it.
pub proof fn lemma_merge_orders(feed: FeedView, parsed: ParsedFeedView)
    ensures
        is_newest_first(merged(feed, parsed).items),
        forall|m: int|
            0 <= m && m + 1 < merged(feed, parsed).items.len() ==> (#[trigger] merged(
                feed,
                parsed,
            ).items[m]).timestamp >= merged(feed, parsed).items[m + 1].timestamp,
{
    lemma_newest_first_sorted(fresh_items(feed.items, parsed.entries));
}

} // verus!
