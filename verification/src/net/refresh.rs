//! One refresh cycle: every feed of every group is fetched in turn, what
//! came back is merged into it, and each group is recounted once its feeds
//! have been visited.

use vstd::prelude::*;

use super::{conditional_request, FetchError, Fetched, FetchedView, Request, RequestView};
use crate::data::merge::merged;
use crate::data::{group_views, Feed, FeedView, Group, GroupView};

verus! {

/// The view of the outcome of a fetch.
pub open spec fn outcome_view(outcome: Result<Fetched, FetchError>) -> Result<
    FetchedView,
    FetchError,
> {
    match outcome {
        Ok(fetched) => Ok(fetched@),
        Err(error) => Err(error),
    }
}

/// The feed after the outcome of a fetch was applied to it. A payload is
/// merged into the feed, and the validators that came with it replace the
/// cached ones. Without a payload, and after a failure, the feed stays as it
/// is.
pub open spec fn refreshed(feed: FeedView, outcome: Result<FetchedView, FetchError>) -> FeedView {
    match outcome {
        Ok(fetched) => match fetched.payload {
            Some(parsed) => merged(
                FeedView {
                    url: feed.url,
                    title: feed.title,
                    items: feed.items,
                    etag: fetched.etag,
                    last_modified: fetched.last_modified,
                },
                parsed,
            ),
            None => feed,
        },
        Err(_) => feed,
    }
}

/// The request that fetches a feed: its address, with the validators cached
/// for it as conditions.
pub open spec fn request_for(feed: FeedView) -> RequestView {
    RequestView {
        url: feed.url,
        if_none_match: feed.etag,
        if_modified_since: feed.last_modified,
    }
}

/// By how many items a feed has grown.
pub open spec fn growth(before: FeedView, after: FeedView) -> nat {
    if after.items.len() > before.items.len() {
        (after.items.len() - before.items.len()) as nat
    } else {
        0
    }
}

impl Feed {
    /// The request that fetches this feed.
    pub fn request(&self) -> (request: Request)
        ensures
            request@ == request_for(self@),
    {
        let etag = match &self.etag {
            Some(text) => Some(text.as_str()),
            None => None,
        };
        let last_modified = match &self.last_modified {
            Some(text) => Some(text.as_str()),
            None => None,
        };
        conditional_request(self.url.as_str(), etag, last_modified)
    }

    /// Applies the outcome of a fetch and returns by how many items the
    /// feed has grown. After a failure, and where the server said that
    /// nothing has changed, the feed is left untouched.
    pub fn apply(&mut self, outcome: Result<Fetched, FetchError>) -> (gained: usize)
        ensures
            final(self)@ == refreshed(old(self)@, outcome_view(outcome)),
            gained == growth(old(self)@, final(self)@),
            !(outcome is Ok && outcome->Ok_0.payload is Some) ==> *final(self) == *old(self),
    {
        match outcome {
            Ok(fetched) => {
                let Fetched { etag, last_modified, payload } = fetched;
                match payload {
                    Some(parsed) => {
                        let before = self.items.len();
                        self.etag = etag;
                        self.last_modified = last_modified;
                        self.merge_items(parsed);
                        if self.items.len() > before {
                            self.items.len() - before
                        } else {
                            0
                        }
                    },
                    None => 0,
                }
            },
            Err(_) => 0,
        }
    }
}

/// Where a cycle stands: the next feed to fetch, and the items gained so
/// far.
#[derive(Debug, Clone, Copy, PartialEq, Eq)]
pub struct Cycle {
    pub group: usize,
    pub feed: usize,
    pub new_items: usize,
}

/// What a cycle asks for next.
#[derive(Debug, PartialEq, Eq)]
pub enum Step {
    /// Fetch the feed that the cycle stands at, with this request.
    Fetch(Request),
    /// Every feed was visited; so many items were gained.
    Finished(usize),
}

/// The number of feeds in the first `count` groups.
pub open spec fn feeds_before(groups: Seq<GroupView>, count: int) -> int
    decreases count,
{
    if count <= 0 {
        0
    } else {
        feeds_before(groups, count - 1) + groups[count - 1].feeds.len()
    }
}

/// The group in which a cycle comes to rest that stands in `group` behind
/// `feed` feeds: the first group from there on in which a feed is left, or
/// the place behind the last group.
pub open spec fn resting_group(groups: Seq<GroupView>, group: int, feed: int) -> int
    decreases groups.len() - group,
{
    if 0 <= group < groups.len() && feed >= groups[group].feeds.len() {
        resting_group(groups, group + 1, 0)
    } else {
        group
    }
}

/// The groups with those from `from` up to `to` recounted.
pub open spec fn recounted_between(groups: Seq<GroupView>, from: int, to: int) -> Seq<GroupView> {
    Seq::new(
        groups.len(),
        |g: int|
            if from <= g < to {
                groups[g].recount()
            } else {
                groups[g]
            },
    )
}

impl Cycle {
    /// The cycle stands at a feed.
    pub open spec fn at_feed(self, groups: Seq<GroupView>) -> bool {
        self.group < groups.len() && self.feed < groups[self.group as int].feeds.len()
    }

    /// The cycle stands within the groups: at a feed, behind the last feed
    /// of a group, or behind the last group.
    pub open spec fn in_place(self, groups: Seq<GroupView>) -> bool {
        &&& self.group <= groups.len()
        &&& self.group < groups.len() ==> self.feed <= groups[self.group as int].feeds.len()
        &&& self.group == groups.len() ==> self.feed == 0
    }

    /// The number of feeds that lie before the place where the cycle
    /// stands.
    pub open spec fn visited(self, groups: Seq<GroupView>) -> int {
        feeds_before(groups, self.group as int) + self.feed
    }

    /// Where the cycle stands after it has moved on to the next feed that
    /// is to be fetched: where it stands, if that is at a feed or behind the
    /// last group, else at the start of the group in which it comes to rest.
    pub open spec fn advanced(self, groups: Seq<GroupView>) -> Cycle {
        let group = resting_group(groups, self.group as int, self.feed as int);
        Cycle {
            group: group as usize,
            feed: if group == self.group {
                self.feed
            } else {
                0
            },
            new_items: self.new_items,
        }
    }

    /// A cycle that has visited nothing yet.
    pub fn begin() -> (cycle: Cycle)
        ensures
            cycle == (Cycle { group: 0, feed: 0, new_items: 0 }),
    {
        Cycle { group: 0, feed: 0, new_items: 0 }
    }

    /// Moves to the next feed that is to be fetched and returns the request
    /// for it. Each group that the cycle leaves behind on the way is
    /// recounted. When no feed is left, the cycle is finished and tells how
    /// many items were gained. A cycle that stands within the groups still
    /// does so afterwards, with the same feeds behind it: none is skipped.
    pub fn advance(&mut self, groups: &mut Vec<Group>) -> (step: Step)
        ensures
            *final(self) == old(self).advanced(group_views(old(groups)@)),
            old(self).in_place(group_views(old(groups)@)) ==> final(self).in_place(
                group_views(old(groups)@),
            ) && final(self).visited(group_views(old(groups)@)) == old(self).visited(
                group_views(old(groups)@),
            ),
            group_views(final(groups)@) == recounted_between(
                group_views(old(groups)@),
                old(self).group as int,
                final(self).group as int,
            ),
            match step {
                Step::Fetch(request) => final(self).at_feed(group_views(final(groups)@))
                    && request@ == request_for(
                    group_views(final(groups)@)[final(self).group as int].feeds[final(self).feed as int],
                ),
                Step::Finished(count) => !final(self).at_feed(group_views(final(groups)@))
                    && final(self).group >= old(groups)@.len() && count == old(self).new_items,
            },
    {
        while self.group < groups.len()
            invariant
                groups@.len() == old(groups)@.len(),
                old(self).group <= self.group,
                self.new_items == old(self).new_items,
                self.group == old(self).group ==> self.feed == old(self).feed,
                self.group != old(self).group ==> self.feed == 0,
                resting_group(group_views(old(groups)@), self.group as int, self.feed as int)
                    == resting_group(
                    group_views(old(groups)@),
                    old(self).group as int,
                    old(self).feed as int,
                ),
                group_views(groups@) == recounted_between(
                    group_views(old(groups)@),
                    old(self).group as int,
                    self.group as int,
                ),
            decreases groups@.len() - self.group,
        {
            let ghost given = group_views(old(groups)@);
            if self.feed < groups[self.group].feeds.len() {
                let request = groups[self.group].feeds[self.feed].request();
                proof {
                    if old(self).in_place(group_views(old(groups)@)) {
                        lemma_advance_skips_nothing(*old(self), group_views(old(groups)@));
                    }
                }
                return Step::Fetch(request);
            }
            let ghost before = groups@;
            groups[self.group].update_unread();
            proof {
                let g = self.group as int;
                assert(group_views(before)[g] == given[g]);
                assert forall|h: int| 0 <= h < groups@.len() implies group_views(groups@)[h]
                    == recounted_between(given, old(self).group as int, g + 1)[h] by {
                    if h != g {
                        assert(group_views(before)[h] == before[h]@);
                    }
                }
            }
            self.group = self.group + 1;
            self.feed = 0;
        }
        proof {
            if old(self).in_place(group_views(old(groups)@)) {
                lemma_advance_skips_nothing(*old(self), group_views(old(groups)@));
            }
        }
        Step::Finished(self.new_items)
    }

    /// Applies the outcome of the fetch of the feed that the cycle stands
    /// at, counts the items gained and moves on to the feed after it. Where
    /// the cycle stands at no feed, nothing changes and `false` is returned.
    pub fn record(&mut self, groups: &mut Vec<Group>, outcome: Result<Fetched, FetchError>) -> (done:
        bool)
        ensures
            done == old(self).at_feed(group_views(old(groups)@)),
            !done ==> *final(self) == *old(self) && *final(groups) == *old(groups),
            done ==> {
                let g = old(self).group as int;
                let f = old(self).feed as int;
                let before = old(groups)@[g]@.feeds[f];
                let after = refreshed(before, outcome_view(outcome));
                &&& final(self).group == old(self).group
                &&& final(self).feed == old(self).feed + 1
                &&& final(self).new_items as int == if old(self).new_items + growth(before, after)
                    <= usize::MAX {
                    old(self).new_items + growth(before, after)
                } else {
                    usize::MAX as int
                }
                &&& final(groups)@.len() == old(groups)@.len()
                &&& forall|h: int|
                    0 <= h < old(groups)@.len() && h != g ==> final(groups)@[h] == old(groups)@[h]
                &&& final(groups)@[g]@ == (GroupView {
                    name: old(groups)@[g]@.name,
                    feeds: old(groups)@[g]@.feeds.update(f, after),
                    unread_count: old(groups)@[g]@.unread_count,
                })
            },
    {
        if self.group < groups.len() && self.feed < groups[self.group].feeds.len() {
            let gained = groups[self.group].feeds[self.feed].apply(outcome);
            proof {
                let g = self.group as int;
                let f = self.feed as int;
                let after = refreshed(old(groups)@[g]@.feeds[f], outcome_view(outcome));
                assert(groups@[g]@.feeds =~= old(groups)@[g]@.feeds.update(f, after));
            }
            self.new_items = self.new_items.saturating_add(gained);
            self.feed = self.feed + 1;
            true
        } else {
            false
        }
    }
}

/// A cycle comes to rest at or behind the place where it stands, at a
/// feed or behind the last group, and no feed lies between the two places.
pub proof fn lemma_resting_group(groups: Seq<GroupView>, group: int, feed: int)
    requires
        0 <= group <= groups.len(),
        0 <= feed,
        group < groups.len() ==> feed <= groups[group].feeds.len(),
        group == groups.len() ==> feed == 0,
    ensures
        group <= resting_group(groups, group, feed) <= groups.len(),
        resting_group(groups, group, feed) == group || feeds_before(
            groups,
            resting_group(groups, group, feed),
        ) == feeds_before(groups, group) + feed,
        resting_group(groups, group, feed) < groups.len() ==> (if resting_group(
            groups,
            group,
            feed,
        ) == group {
            feed
        } else {
            0
        }) < groups[resting_group(groups, group, feed)].feeds.len(),
    decreases groups.len() - group,
{
    if group < groups.len() && feed >= groups[group].feeds.len() {
        lemma_resting_group(groups, group + 1, 0);
    }
}

/// Moving on neither visits nor skips a feed: the cycle then stands at a
/// feed with as many feeds before it as before, or behind the last group
/// with every feed before it.
pub proof fn lemma_advance_skips_nothing(cycle: Cycle, groups: Seq<GroupView>)
    requires
        cycle.in_place(groups),
        groups.len() <= usize::MAX,
    ensures
        cycle.advanced(groups).in_place(groups),
        cycle.advanced(groups).visited(groups) == cycle.visited(groups),
        cycle.advanced(groups).new_items == cycle.new_items,
        cycle.advanced(groups).at_feed(groups) || (cycle.advanced(groups).group == groups.len()
            && cycle.advanced(groups).visited(groups) == feeds_before(groups, groups.len() as int)),
{
    lemma_resting_group(groups, cycle.group as int, cycle.feed as int);
}

} // verus!
