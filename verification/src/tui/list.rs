//! Which items of a feed are listed, and in which order.

use vstd::prelude::*;
use vstd::utf8::encode_utf8;

use super::AppState;
use crate::config::SortOrder;
use crate::data::order::{
    arranged, in_order, lemma_arranged_in_order, lemma_arranged_members, placed, ranks, slot,
};
use crate::data::{item_views, Group, Item, ItemView};
use crate::text::{
    bytes_before, contains_bytes, lemma_bytes_before_between, lemma_bytes_before_one_way,
    lowercase, lowercased, occurs_in, sorts_before,
};

verus! {

/// The two filters of a listing: an item passes when it is unread or read
/// ones are wanted too, and when its title, in lower case, holds the query
/// or there is none.
pub open spec fn passes(read: bool, title: Seq<char>, unread_only: bool, query: Seq<char>) -> bool {
    (!unread_only || !read) && (query.len() == 0 || occurs_in(
        encode_utf8(query),
        encode_utf8(title),
    ))
}

/// An item is listed when it passes both filters: unread, where only
/// unread items are wanted, and with `query` in the lower-case form of its
/// title, where there is a query.
pub open spec fn listed(item: ItemView, unread_only: bool, query: Seq<char>) -> bool {
    passes(item.read, lowercase(item.title), unread_only, query)
}

/// Applies the two filters of a listing to an item that is read or not and
/// has the given title in lower case.
pub fn passes_filters(read: bool, title: &str, unread_only: bool, query: &str) -> (passed: bool)
    ensures
        passed == passes(read, title@, unread_only, query@),
{
    (!unread_only || !read) && (query.is_empty() || contains_bytes(
        title.as_bytes(),
        query.as_bytes(),
    ))
}

/// The positions `0` to `count - 1`.
pub open spec fn positions(count: nat) -> Seq<int> {
    Seq::new(count, |i: int| i)
}

/// The positions of the listed items, ascending.
pub open spec fn candidates(items: Seq<ItemView>, unread_only: bool, query: Seq<char>) -> Seq<int> {
    positions(items.len()).filter(|i: int| listed(items[i], unread_only, query))
}

/// Which of two positions may stand ahead of the other in a listing: by
/// date the one whose item is at least as new, by title the one whose title
/// does not come after the other's, and any where the feed's own order is
/// kept.
pub open spec fn precedence(items: Seq<ItemView>, order: SortOrder) -> spec_fn(int, int) -> bool {
    match order {
        SortOrder::Date => |a: int, b: int| items[a].timestamp >= items[b].timestamp,
        SortOrder::Title => |a: int, b: int|
            !bytes_before(encode_utf8(items[b].title), encode_utf8(items[a].title)),
        SortOrder::Channel => |a: int, b: int| true,
    }
}

/// The positions of the items to list, in the order of the listing. The
/// search text is matched in lower case.
pub open spec fn listing(
    items: Seq<ItemView>,
    unread_only: bool,
    search: Seq<char>,
    order: SortOrder,
) -> Seq<int> {
    arranged(candidates(items, unread_only, lowercase(search)), precedence(items, order))
}

/// The positions as integers.
pub open spec fn as_positions(indices: Seq<usize>) -> Seq<int> {
    indices.map_values(|i: usize| i as int)
}

/// Each of the three orders ranks the positions.
pub proof fn lemma_precedence_ranks(items: Seq<ItemView>, order: SortOrder)
    ensures
        ranks(precedence(items, order)),
{
    let ahead = precedence(items, order);
    match order {
        SortOrder::Title => {
            assert forall|a: int, b: int| #[trigger] ahead(a, b) || ahead(b, a) by {
                lemma_bytes_before_one_way(encode_utf8(items[a].title), encode_utf8(items[b].title));
            }
            assert forall|a: int, b: int, c: int| #[trigger]
                ahead(a, b) && #[trigger] ahead(b, c) implies ahead(a, c) by {
                if bytes_before(encode_utf8(items[c].title), encode_utf8(items[a].title)) {
                    lemma_bytes_before_between(
                        encode_utf8(items[a].title),
                        encode_utf8(items[b].title),
                        encode_utf8(items[c].title),
                    );
                }
            }
        },
        _ => {},
    }
}

/// A listing holds exactly the positions of the listed items, each once
/// and within the feed, and is in the order asked for.
pub proof fn lemma_listing(
    items: Seq<ItemView>,
    unread_only: bool,
    search: Seq<char>,
    order: SortOrder,
)
    ensures
        in_order(listing(items, unread_only, search, order), precedence(items, order)),
        forall|i: int| #[trigger]
            listing(items, unread_only, search, order).contains(i) <==> 0 <= i < items.len()
                && listed(items[i], unread_only, lowercase(search)),
        listing(items, unread_only, search, order).no_duplicates(),
{
    let query = lowercase(search);
    let ahead = precedence(items, order);
    let chosen = candidates(items, unread_only, query);
    let shown = listing(items, unread_only, search, order);
    lemma_precedence_ranks(items, order);
    lemma_arranged_in_order(chosen, ahead);
    lemma_candidates(items, unread_only, query);
    assert forall|i: int| #[trigger] shown.contains(i) <==> 0 <= i < items.len() && listed(
        items[i],
        unread_only,
        query,
    ) by {
        lemma_arranged_members(chosen, ahead, i);
    }
    crate::data::order::lemma_arranged_permutes(chosen, ahead);
    chosen.lemma_multiset_has_no_duplicates();
    shown.lemma_multiset_has_no_duplicates_conv();
}

/// The candidates are exactly the positions of the listed items, ascending.
pub proof fn lemma_candidates(items: Seq<ItemView>, unread_only: bool, query: Seq<char>)
    ensures
        forall|i: int| #[trigger]
            candidates(items, unread_only, query).contains(i) <==> 0 <= i < items.len() && listed(
                items[i],
                unread_only,
                query,
            ),
        forall|a: int, b: int|
            0 <= a < b < candidates(items, unread_only, query).len() ==> candidates(
                items,
                unread_only,
                query,
            )[a] < candidates(items, unread_only, query)[b],
        candidates(items, unread_only, query).no_duplicates(),
{
    let wanted = |i: int| listed(items[i], unread_only, query);
    let all = positions(items.len());
    let chosen = candidates(items, unread_only, query);
    lemma_ascending_filter(items.len(), wanted);
    assert forall|i: int| #[trigger] chosen.contains(i) <==> 0 <= i < items.len() && listed(
        items[i],
        unread_only,
        query,
    ) by {
        if chosen.contains(i) {
            let at = choose|at: int| 0 <= at < chosen.len() && chosen[at] == i;
            all.lemma_filter_pred(wanted, at);
            all.lemma_filter_contains_rev(wanted, i);
        }
        if 0 <= i < items.len() && wanted(i) {
            all.lemma_filter_contains(wanted, i);
        }
    }
}

/// Filtering the positions below `count` leaves them ascending.
proof fn lemma_ascending_filter(count: nat, wanted: spec_fn(int) -> bool)
    ensures
        forall|a: int, b: int|
            0 <= a < b < positions(count).filter(wanted).len() ==> positions(count).filter(
                wanted,
            )[a] < positions(count).filter(wanted)[b],
        forall|a: int|
            0 <= a < positions(count).filter(wanted).len() ==> 0 <= #[trigger] positions(
                count,
            ).filter(wanted)[a] < count,
        positions(count).filter(wanted).no_duplicates(),
    decreases count,
{
    reveal(Seq::filter);
    if count > 0 {
        let below = (count - 1) as nat;
        lemma_ascending_filter(below, wanted);
        assert(positions(count).drop_last() =~= positions(below));
    }
}

/// Puts position `index` into a listing that is in order.
fn place_index(listing: &mut Vec<usize>, index: usize, items: &Vec<Item>, order: SortOrder)
    requires
        index < items@.len(),
        forall|k: int| 0 <= k < old(listing)@.len() ==> old(listing)@[k] < items@.len(),
    ensures
        as_positions(final(listing)@) == placed(
            as_positions(old(listing)@),
            index as int,
            precedence(item_views(items@), order),
        ),
        forall|k: int| 0 <= k < final(listing)@.len() ==> final(listing)@[k] < items@.len(),
{
    let ghost ahead = precedence(item_views(items@), order);
    let mut k: usize = listing.len();
    let mut found = false;
    proof {
        assert(listing@.take(k as int) =~= listing@);
    }
    while k > 0 && !found
        invariant
            k <= listing.len(),
            found ==> k > 0 && ahead(listing@[k - 1] as int, index as int),
            index < items@.len(),
            *listing == *old(listing),
            ahead == precedence(item_views(items@), order),
            forall|j: int| 0 <= j < listing@.len() ==> listing@[j] < items@.len(),
            slot(as_positions(listing@), index as int, ahead) == slot(
                as_positions(listing@.take(k as int)),
                index as int,
                ahead,
            ),
        decreases k, (if found { 0int } else { 1int }),
    {
        let other = listing[k - 1];
        let stays = match order {
            SortOrder::Date => items[other].timestamp >= items[index].timestamp,
            SortOrder::Title => !sorts_before(
                items[index].title.as_str().as_bytes(),
                items[other].title.as_str().as_bytes(),
            ),
            SortOrder::Channel => true,
        };
        proof {
            let upto = as_positions(listing@.take(k as int));
            assert(upto.drop_last() =~= as_positions(listing@.take(k - 1)));
        }
        if stays {
            found = true;
        } else {
            k = k - 1;
        }
    }
    listing.insert(k, index);
}

/// Lists the items of a feed: the positions of those that pass the filters,
/// each once, in the order asked for.
pub fn list_items(items: &Vec<Item>, unread_only: bool, search: &str, order: SortOrder) -> (indices:
    Vec<usize>)
    ensures
        as_positions(indices@) == listing(item_views(items@), unread_only, search@, order),
        in_order(as_positions(indices@), precedence(item_views(items@), order)),
        as_positions(indices@).no_duplicates(),
        forall|k: int| 0 <= k < indices@.len() ==> indices@[k] < items@.len(),
{
    proof {
        lemma_listing(item_views(items@), unread_only, search@, order);
    }
    let query = lowercased(search);
    let ghost views = item_views(items@);
    let ghost ahead = precedence(views, order);
    let ghost wanted = |i: int| listed(views[i], unread_only, query@);
    let mut indices: Vec<usize> = Vec::new();
    let mut i: usize = 0;
    proof {
        reveal(Seq::filter);
    }
    while i < items.len()
        invariant
            i <= items.len(),
            views == item_views(items@),
            ahead == precedence(views, order),
            wanted == (|i: int| listed(views[i], unread_only, query@)),
            query@ == lowercase(search@),
            as_positions(indices@) == arranged(positions(i as nat).filter(wanted), ahead),
            forall|k: int| 0 <= k < indices@.len() ==> indices@[k] < items@.len(),
        decreases items.len() - i,
    {
        let title = lowercased(items[i].title.as_str());
        let passed = passes_filters(items[i].read, title.as_str(), unread_only, query.as_str());
        proof {
            assert(positions((i + 1) as nat) =~= positions(i as nat).push(i as int));
            positions(i as nat).lemma_filter_push(i as int, wanted);
        }
        if passed {
            proof {
                let wider = positions((i + 1) as nat).filter(wanted);
                assert(wider.drop_last() =~= positions(i as nat).filter(wanted));
            }
            place_index(&mut indices, i, items, order);
        }
        i = i + 1;
    }
    indices
}

/// The positions of the items to list for the selected feed, in the order
/// of the listing; none where no feed is selected.
pub fn visible_indices(app: &AppState, groups: &Vec<Group>) -> (indices: Vec<usize>)
    ensures
        as_positions(indices@) == (if app.selected_group < groups@.len() && app.selected_feed
            < groups@[app.selected_group as int].feeds@.len() {
            listing(
                groups@[app.selected_group as int]@.feeds[app.selected_feed as int].items,
                app.config.ui.unread_only,
                app.search@,
                app.config.ui.sort,
            )
        } else {
            Seq::empty()
        }),
        app.selected_group < groups@.len() && app.selected_feed
            < groups@[app.selected_group as int].feeds@.len() ==> forall|k: int|
            0 <= k < indices@.len() ==> indices@[k]
                < groups@[app.selected_group as int].feeds@[app.selected_feed as int].items@.len(),
{
    if app.selected_group < groups.len() && app.selected_feed
        < groups[app.selected_group].feeds.len() {
        list_items(
            &groups[app.selected_group].feeds[app.selected_feed].items,
            app.config.ui.unread_only,
            app.search.as_str(),
            app.config.ui.sort,
        )
    } else {
        let indices: Vec<usize> = Vec::new();
        indices
    }
}

} // verus!
