//! Stable ordering. A list is arranged by a relation that says which items
//! may stand ahead of which; items that may stand either way keep the order
//! in which they came. A feed's items are arranged newest first.

use vstd::prelude::*;

use super::{item_views, Item, ItemView};

verus! {

/// Every item may stand ahead of those behind it.
pub open spec fn in_order<T>(items: Seq<T>, ahead: spec_fn(T, T) -> bool) -> bool {
    forall|i: int, j: int| 0 <= i < j < items.len() ==> ahead(items[i], items[j])
}

/// Of two items one may stand ahead of the other, and what may stand ahead
/// of an item may stand ahead of all that the item may stand ahead of.
pub open spec fn ranks<T>(ahead: spec_fn(T, T) -> bool) -> bool {
    &&& forall|a: T, b: T| #[trigger] ahead(a, b) || ahead(b, a)
    &&& forall|a: T, b: T, c: T| #[trigger] ahead(a, b) && #[trigger] ahead(b, c) ==> ahead(a, c)
}

/// Where `item` goes in `items`: directly behind the last item that may
/// stand ahead of it, or in front where there is none.
pub open spec fn slot<T>(items: Seq<T>, item: T, ahead: spec_fn(T, T) -> bool) -> int
    decreases items.len(),
{
    if items.len() == 0 || ahead(items.last(), item) {
        items.len() as int
    } else {
        slot(items.drop_last(), item, ahead)
    }
}

/// `items` with `item` put into its slot.
pub open spec fn placed<T>(items: Seq<T>, item: T, ahead: spec_fn(T, T) -> bool) -> Seq<T> {
    items.insert(slot(items, item, ahead), item)
}

/// The items put into their slots one after the other: arranged by
/// `ahead`, those that may stand either way in their given order.
pub open spec fn arranged<T>(items: Seq<T>, ahead: spec_fn(T, T) -> bool) -> Seq<T>
    decreases items.len(),
{
    if items.len() == 0 {
        Seq::empty()
    } else {
        placed(arranged(items.drop_last(), ahead), items.last(), ahead)
    }
}

/// The items that rank with `like`, in their order.
pub open spec fn peers<T>(items: Seq<T>, like: T, ahead: spec_fn(T, T) -> bool) -> Seq<T> {
    items.filter(|item: T| ahead(item, like) && ahead(like, item))
}

/// A slot lies within the list, no item from it on may stand ahead of
/// `item`, and the item before it may.
pub proof fn lemma_slot<T>(items: Seq<T>, item: T, ahead: spec_fn(T, T) -> bool)
    ensures
        0 <= slot(items, item, ahead) <= items.len(),
        forall|i: int| slot(items, item, ahead) <= i < items.len() ==> !ahead(#[trigger] items[i], item),
        slot(items, item, ahead) > 0 ==> ahead(items[slot(items, item, ahead) - 1], item),
    decreases items.len(),
{
    if items.len() > 0 && !ahead(items.last(), item) {
        let front = items.drop_last();
        lemma_slot(front, item, ahead);
        assert forall|i: int| slot(items, item, ahead) <= i < items.len() implies !ahead(
            #[trigger] items[i],
            item,
        ) by {
            if i < front.len() {
                assert(items[i] == front[i]);
            }
        }
    }
}

/// Putting an item into its slot keeps a list in order.
pub proof fn lemma_placed_in_order<T>(items: Seq<T>, item: T, ahead: spec_fn(T, T) -> bool)
    requires
        ranks(ahead),
        in_order(items, ahead),
    ensures
        in_order(placed(items, item, ahead), ahead),
{
    let k = slot(items, item, ahead);
    lemma_slot(items, item, ahead);
    items.insert_ensures(k, item);
}

/// Arranging gives a list in order.
pub proof fn lemma_arranged_in_order<T>(items: Seq<T>, ahead: spec_fn(T, T) -> bool)
    requires
        ranks(ahead),
    ensures
        in_order(arranged(items, ahead), ahead),
    decreases items.len(),
{
    if items.len() > 0 {
        lemma_arranged_in_order(items.drop_last(), ahead);
        lemma_placed_in_order(arranged(items.drop_last(), ahead), items.last(), ahead);
    }
}

/// Arranging neither adds nor loses an item.
pub proof fn lemma_arranged_permutes<T>(items: Seq<T>, ahead: spec_fn(T, T) -> bool)
    ensures
        arranged(items, ahead).len() == items.len(),
        arranged(items, ahead).to_multiset() == items.to_multiset(),
    decreases items.len(),
{
    broadcast use vstd::seq_lib::group_to_multiset_ensures;

    if items.len() > 0 {
        let rest = arranged(items.drop_last(), ahead);
        lemma_arranged_permutes(items.drop_last(), ahead);
        lemma_slot(rest, items.last(), ahead);
        rest.insert_ensures(slot(rest, items.last(), ahead), items.last());
        assert(items =~= items.drop_last().push(items.last()));
    }
}

/// The arranged list holds exactly the items of the given one.
pub proof fn lemma_arranged_members<T>(items: Seq<T>, ahead: spec_fn(T, T) -> bool, item: T)
    ensures
        arranged(items, ahead).contains(item) <==> items.contains(item),
{
    lemma_arranged_permutes(items, ahead);
    vstd::seq_lib::to_multiset_contains(arranged(items, ahead), item);
    vstd::seq_lib::to_multiset_contains(items, item);
}

/// Arranging is stable: items that rank alike keep their order.
pub proof fn lemma_arranged_stable<T>(items: Seq<T>, ahead: spec_fn(T, T) -> bool, like: T)
    requires
        ranks(ahead),
    ensures
        peers(arranged(items, ahead), like, ahead) == peers(items, like, ahead),
    decreases items.len(),
{
    let alike = |item: T| ahead(item, like) && ahead(like, item);
    if items.len() > 0 {
        let rest = arranged(items.drop_last(), ahead);
        let last = items.last();
        let k = slot(rest, last, ahead);
        lemma_arranged_stable(items.drop_last(), ahead, like);
        lemma_slot(rest, last, ahead);
        let head = rest.subrange(0, k);
        let tail = rest.subrange(k, rest.len() as int);
        assert(rest =~= head + tail);
        assert(items =~= items.drop_last().push(last));
        Seq::filter_distributes_over_add(head, tail, alike);
        Seq::filter_distributes_over_add(head.push(last), tail, alike);
        head.lemma_filter_push(last, alike);
        items.drop_last().lemma_filter_push(last, alike);
        if alike(last) {
            tail.lemma_all_neg_filter_empty(alike);
        }
    }
}

/// An item may stand ahead of another when it is at least as new.
pub open spec fn by_time() -> spec_fn(ItemView, ItemView) -> bool {
    |a: ItemView, b: ItemView| a.timestamp >= b.timestamp
}

/// No item is newer than one that stands before it.
pub open spec fn is_newest_first(items: Seq<ItemView>) -> bool {
    forall|i: int, j: int| 0 <= i < j < items.len() ==> items[i].timestamp >= items[j].timestamp
}

/// The items sorted newest first, those of equal time in their given order.
pub open spec fn newest_first(items: Seq<ItemView>) -> Seq<ItemView> {
    arranged(items, by_time())
}

/// The items of `items` with the given time, in their order.
pub open spec fn at_time(items: Seq<ItemView>, timestamp: i64) -> Seq<ItemView> {
    items.filter(|item: ItemView| item.timestamp == timestamp)
}

/// Sorting gives a list in which no item is newer than one before it.
pub proof fn lemma_newest_first_sorted(items: Seq<ItemView>)
    ensures
        is_newest_first(newest_first(items)),
{
    lemma_arranged_in_order(items, by_time());
}

/// Sorting neither adds nor loses an item.
pub proof fn lemma_newest_first_permutes(items: Seq<ItemView>)
    ensures
        newest_first(items).len() == items.len(),
        newest_first(items).to_multiset() == items.to_multiset(),
{
    lemma_arranged_permutes(items, by_time());
}

/// The sorted list holds exactly the items of the given one.
pub proof fn lemma_newest_first_members(items: Seq<ItemView>, item: ItemView)
    ensures
        newest_first(items).contains(item) <==> items.contains(item),
{
    lemma_arranged_members(items, by_time(), item);
}

/// Items of equal time keep their order.
pub proof fn lemma_newest_first_stable(items: Seq<ItemView>, timestamp: i64)
    ensures
        at_time(newest_first(items), timestamp) == at_time(items, timestamp),
{
    let like = ItemView {
        id: Seq::empty(),
        title: Seq::empty(),
        link: Seq::empty(),
        desc: Seq::empty(),
        timestamp,
        read: false,
        queued: false,
    };
    lemma_arranged_stable(items, by_time(), like);
    let alike = |item: ItemView| by_time()(item, like) && by_time()(like, item);
    let same = |item: ItemView| item.timestamp == timestamp;
    assert forall|s: Seq<ItemView>| #[trigger] s.filter(alike) == s.filter(same) by {
        lemma_filter_same(s, alike, same);
    }
}

/// Two tests that agree on every item keep the same items.
proof fn lemma_filter_same<T>(items: Seq<T>, p: spec_fn(T) -> bool, q: spec_fn(T) -> bool)
    requires
        forall|item: T| #[trigger] p(item) == q(item),
    ensures
        items.filter(p) == items.filter(q),
    decreases items.len(),
{
    reveal(Seq::filter);
    if items.len() > 0 {
        lemma_filter_same(items.drop_last(), p, q);
    }
}

/// Puts `item` into a list that is sorted newest first, behind every item
/// that is at least as new.
pub fn place(items: &mut Vec<Item>, item: Item)
    ensures
        item_views(final(items)@) == placed(item_views(old(items)@), item@, by_time()),
{
    let mut k: usize = items.len();
    proof {
        assert(items@.take(k as int) =~= items@);
    }
    while k > 0 && items[k - 1].timestamp < item.timestamp
        invariant
            k <= items.len(),
            *items == *old(items),
            slot(item_views(items@), item@, by_time()) == slot(
                item_views(items@.take(k as int)),
                item@,
                by_time(),
            ),
        decreases k,
    {
        proof {
            let upto = item_views(items@.take(k as int));
            assert(upto.drop_last() =~= item_views(items@.take(k - 1)));
        }
        k = k - 1;
    }
    items.insert(k, item);
}

/// Sorts the items newest first, keeping the order of items of equal time.
pub fn sort_newest_first(items: Vec<Item>) -> (sorted: Vec<Item>)
    ensures
        item_views(sorted@) == newest_first(item_views(items@)),
        is_newest_first(item_views(sorted@)),
{
    let ghost given = item_views(items@);
    let mut sorted: Vec<Item> = Vec::new();
    for item in iter: items
        invariant
            iter.seq() == items@,
            item_views(sorted@) == newest_first(given.take(iter.index() as int)),
            given == item_views(items@),
    {
        proof {
            let wider = given.take(iter.index() + 1);
            assert(wider.drop_last() =~= given.take(iter.index() as int));
        }
        place(&mut sorted, item);
    }
    proof {
        assert(given.take(items@.len() as int) =~= given);
        lemma_newest_first_sorted(given);
    }
    sorted
}

} // verus!
