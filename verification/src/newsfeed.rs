//! Newsfeed aggregation across multiple feed rooms.
//!
//! The newsfeed is the union of all tracked feed rooms: the per-room item
//! batches, fetched outside the library, are concatenated, sorted under the
//! configured order and truncated. For a fixed set of fetched items and a
//! fixed order the result is fully determined: the sort is stable, so items
//! that compare equal keep their concatenation order.

use vstd::prelude::*;

use crate::post::PostContent;
use crate::text::contains_name;
use crate::text::lex_le;
use crate::text::lemma_lex_le_antisymmetric;
use crate::text::lemma_lex_le_total;
use crate::text::lemma_lex_le_transitive;
use crate::text::spec_contains_name;
use crate::text::str_eq;
use crate::text::lemma_filter_distinct;
use crate::text::str_le;
use vstd::multiset::Multiset;

verus! {

/// Sort order for the newsfeed.
#[derive(Clone, Copy, Debug, PartialEq, Eq, Structural)]
pub enum FeedSortOrder {
    /// Most recent first.
    Chronological,
    /// By engagement (reactions plus comments), highest first.
    Engagement,
    /// Grouped by author ascending, most recent first within an author.
    GroupedByAuthor,
}

impl Default for FeedSortOrder {
    /// Feeds default to chronological order.
    fn default() -> (r: FeedSortOrder)
        ensures
            r is Chronological,
    {
        FeedSortOrder::Chronological
    }
}

/// An aggregated feed item from any feed room.
#[derive(Clone, Debug)]
pub struct FeedItem {
    /// Source room identifier where this post lives.
    pub room_id: String,
    /// Identifier of this post's record.
    pub event_id: String,
    /// Author identity.
    pub sender: String,
    /// Timestamp when the post was created (epoch milliseconds).
    pub origin_server_ts: u64,
    /// Message content of the post.
    pub content: PostContent,
    /// Reaction counts by emoji.
    pub reactions: Vec<(String, u32)>,
    /// Number of comments/replies to this post.
    pub comment_count: u32,
}

/// The sum of a list of per-emoji reaction counts.
pub open spec fn sum_counts(s: Seq<(String, u32)>) -> nat
    decreases s.len(),
{
    if s.len() == 0 {
        0
    } else {
        sum_counts(s.drop_last()) + s.last().1 as nat
    }
}

/// A prefix sums to no more than the whole.
pub proof fn lemma_sum_counts_take_le(s: Seq<(String, u32)>, i: int)
    requires
        0 <= i <= s.len(),
    ensures
        sum_counts(s.take(i)) <= sum_counts(s),
    decreases s.len() - i,
{
    if i == s.len() {
        assert(s.take(i) =~= s);
    } else {
        assert(s.take(i + 1).drop_last() =~= s.take(i));
        assert(s.take(i + 1).last() == s[i]);
        lemma_sum_counts_take_le(s, i + 1);
    }
}

/// The engagement of an item: the sum of its reaction counts plus its
/// comment count. A pure function of the item, not stored state.
pub open spec fn spec_engagement(item: FeedItem) -> nat {
    sum_counts(item.reactions@) + item.comment_count as nat
}

impl FeedItem {
    /// The item's engagement fits the count type: a machine limit every
    /// item handed to the aggregation is expected to meet.
    pub open spec fn wf(&self) -> bool {
        spec_engagement(*self) <= u32::MAX
    }

    /// Calculate the total engagement for this item: the sum of all
    /// reaction counts plus the comment count.
    pub fn engagement(&self) -> (r: u32)
        requires
            self.wf(),
        ensures
            r == spec_engagement(*self),
    {
        let mut sum: u32 = 0;
        let mut i: usize = 0;
        proof {
            assert(self.reactions@.take(0) =~= Seq::<(String, u32)>::empty());
        }
        while i < self.reactions.len()
            invariant
                self.wf(),
                i <= self.reactions.len(),
                sum == sum_counts(self.reactions@.take(i as int)),
            decreases self.reactions.len() - i,
        {
            proof {
                assert(self.reactions@.take(i as int + 1).drop_last() =~= self.reactions@.take(
                    i as int,
                ));
                assert(self.reactions@.take(i as int + 1).last() == self.reactions@[i as int]);
                lemma_sum_counts_take_le(self.reactions@, i as int + 1);
            }
            sum = sum + self.reactions[i].1;
            i = i + 1;
        }
        proof {
            assert(self.reactions@.take(i as int) =~= self.reactions@);
        }
        sum + self.comment_count
    }
}

/// The order the feed is sorted under: descending timestamps, descending
/// engagement, or authors ascending with descending timestamps within one
/// author. `feed_le(order, a, b)` says that `a` may stand before `b`.
pub open spec fn feed_le(order: FeedSortOrder, a: FeedItem, b: FeedItem) -> bool {
    match order {
        FeedSortOrder::Chronological => a.origin_server_ts >= b.origin_server_ts,
        FeedSortOrder::Engagement => spec_engagement(a) >= spec_engagement(b),
        FeedSortOrder::GroupedByAuthor => if a.sender@ == b.sender@ {
            a.origin_server_ts >= b.origin_server_ts
        } else {
            lex_le(a.sender@, b.sender@)
        },
    }
}

/// Any two items are comparable under each order.
pub proof fn lemma_feed_le_total(order: FeedSortOrder, a: FeedItem, b: FeedItem)
    ensures
        feed_le(order, a, b) || feed_le(order, b, a),
{
    if order is GroupedByAuthor && a.sender@ != b.sender@ {
        lemma_lex_le_total(a.sender@, b.sender@);
    }
}

/// Each order is transitive.
pub proof fn lemma_feed_le_transitive(order: FeedSortOrder, a: FeedItem, b: FeedItem, c: FeedItem)
    requires
        feed_le(order, a, b),
        feed_le(order, b, c),
    ensures
        feed_le(order, a, c),
{
    if order is GroupedByAuthor {
        if a.sender@ == b.sender@ && b.sender@ == c.sender@ {
        } else if a.sender@ == b.sender@ {
        } else if b.sender@ == c.sender@ {
        } else {
            lemma_lex_le_transitive(a.sender@, b.sender@, c.sender@);
            if a.sender@ == c.sender@ {
                lemma_lex_le_antisymmetric(a.sender@, b.sender@);
            }
        }
    }
}

/// Insert an item into a sorted run, after every item that may stand before
/// it: the insertion step of a stable sort.
pub open spec fn insert_feed(order: FeedSortOrder, s: Seq<FeedItem>, x: FeedItem) -> Seq<FeedItem>
    decreases s.len(),
{
    if s.len() == 0 {
        seq![x]
    } else if !feed_le(order, s[0], x) {
        seq![x] + s
    } else {
        seq![s[0]] + insert_feed(order, s.drop_first(), x)
    }
}

/// Stable sort of feed items under an order: items that compare equal keep
/// their input order.
pub open spec fn sort_feed(order: FeedSortOrder, s: Seq<FeedItem>) -> Seq<FeedItem>
    decreases s.len(),
{
    if s.len() == 0 {
        s
    } else {
        insert_feed(order, sort_feed(order, s.drop_last()), s.last())
    }
}

/// Inserting grows the run by one.
pub proof fn lemma_insert_feed_len(order: FeedSortOrder, s: Seq<FeedItem>, x: FeedItem)
    ensures
        insert_feed(order, s, x).len() == s.len() + 1,
    decreases s.len(),
{
    if s.len() != 0 && feed_le(order, s[0], x) {
        lemma_insert_feed_len(order, s.drop_first(), x);
    }
}

/// Sorting keeps the length.
pub proof fn lemma_sort_feed_len(order: FeedSortOrder, s: Seq<FeedItem>)
    ensures
        sort_feed(order, s).len() == s.len(),
    decreases s.len(),
{
    if s.len() != 0 {
        lemma_sort_feed_len(order, s.drop_last());
        lemma_insert_feed_len(order, sort_feed(order, s.drop_last()), s.last());
    }
}

/// The insertion step splits the run at the first position whose item may
/// not stand before the new one.
pub proof fn lemma_insert_feed_at(order: FeedSortOrder, s: Seq<FeedItem>, x: FeedItem, p: int)
    requires
        0 <= p <= s.len(),
        forall|q: int| 0 <= q < p ==> feed_le(order, #[trigger] s[q], x),
        p < s.len() ==> !feed_le(order, s[p], x),
    ensures
        insert_feed(order, s, x) == s.take(p) + seq![x] + s.skip(p),
    decreases s.len(),
{
    if s.len() == 0 {
        assert(insert_feed(order, s, x) =~= s.take(p) + seq![x] + s.skip(p));
    } else if !feed_le(order, s[0], x) {
        assert(p == 0);
        assert(insert_feed(order, s, x) =~= s.take(0) + seq![x] + s.skip(0));
    } else {
        assert(p >= 1) by {
            assert(feed_le(order, s[0], x));
        }
        lemma_insert_feed_at(order, s.drop_first(), x, p - 1);
        assert(s.drop_first().take(p - 1) =~= s.take(p).drop_first());
        assert(s.drop_first().skip(p - 1) =~= s.skip(p));
        assert(seq![s[0]] + (s.take(p).drop_first() + seq![x] + s.skip(p)) =~= s.take(p) + seq![x]
            + s.skip(p));
    }
}

/// Whether a run is sorted under an order: every item may stand before all
/// the later ones.
pub open spec fn feed_sorted(order: FeedSortOrder, s: Seq<FeedItem>) -> bool {
    forall|i: int, j: int|
        0 <= i < j < s.len() ==> feed_le(order, #[trigger] s[i], #[trigger] s[j])
}

/// Inserting into a sorted run keeps it sorted.
pub proof fn lemma_insert_feed_sorted(order: FeedSortOrder, s: Seq<FeedItem>, x: FeedItem)
    requires
        feed_sorted(order, s),
    ensures
        feed_sorted(order, insert_feed(order, s, x)),
    decreases s.len(),
{
    if s.len() == 0 {
    } else if !feed_le(order, s[0], x) {
        let r = seq![x] + s;
        lemma_feed_le_total(order, s[0], x);
        assert forall|i: int, j: int| 0 <= i < j < r.len() implies feed_le(
            order,
            #[trigger] r[i],
            #[trigger] r[j],
        ) by {
            if i == 0 {
                assert(feed_le(order, x, s[0]));
                if j > 1 {
                    lemma_feed_le_transitive(order, x, s[0], s[j - 1]);
                }
            } else {
                assert(feed_le(order, s[i - 1], s[j - 1]));
            }
        }
    } else {
        assert forall|i: int, j: int| 0 <= i < j < s.drop_first().len() implies feed_le(
            order,
            #[trigger] s.drop_first()[i],
            #[trigger] s.drop_first()[j],
        ) by {
            assert(feed_le(order, s[i + 1], s[j + 1]));
        }
        lemma_insert_feed_sorted(order, s.drop_first(), x);
        let t = insert_feed(order, s.drop_first(), x);
        let r = seq![s[0]] + t;
        lemma_insert_feed_multiset(order, s.drop_first(), x);
        assert forall|i: int, j: int| 0 <= i < j < r.len() implies feed_le(
            order,
            #[trigger] r[i],
            #[trigger] r[j],
        ) by {
            if i == 0 {
                broadcast use vstd::seq_lib::group_to_multiset_ensures;

                assert(t.to_multiset() =~= s.drop_first().to_multiset().insert(x));
                assert(t.to_multiset().contains(t[j - 1]));
                if t[j - 1] == x {
                    assert(feed_le(order, s[0], x));
                } else {
                    assert(s.drop_first().to_multiset().contains(t[j - 1]));
                    assert(s.drop_first().contains(t[j - 1]));
                    let w = choose|w: int|
                        0 <= w < s.drop_first().len() && s.drop_first()[w] == t[j - 1];
                    assert(feed_le(order, s[0], s[w + 1]));
                }
            } else {
                assert(feed_le(order, t[i - 1], t[j - 1]));
            }
        }
    }
}

/// Inserting adds exactly the new item to the run's contents.
pub proof fn lemma_singleton_multiset(x: FeedItem)
    ensures
        seq![x].to_multiset() == Multiset::<FeedItem>::empty().insert(x),
{
    broadcast use vstd::seq_lib::group_to_multiset_ensures;
    broadcast use vstd::multiset::group_multiset_axioms;

    let e = Seq::<FeedItem>::empty();
    assert(seq![x] =~= e.push(x));
    vstd::multiset::lemma_multiset_empty_len(e.to_multiset());
    assert(e.to_multiset() =~= Multiset::<FeedItem>::empty());
}

/// Inserting adds exactly the new item to the run's contents.
pub proof fn lemma_insert_feed_multiset(order: FeedSortOrder, s: Seq<FeedItem>, x: FeedItem)
    ensures
        insert_feed(order, s, x).to_multiset() == s.to_multiset().insert(x),
    decreases s.len(),
{
    broadcast use vstd::seq_lib::group_to_multiset_ensures;
    broadcast use vstd::multiset::group_multiset_axioms;

    lemma_singleton_multiset(x);
    if s.len() == 0 {
        vstd::multiset::lemma_multiset_empty_len(s.to_multiset());
        assert(s.to_multiset() =~= Multiset::<FeedItem>::empty());
        assert(insert_feed(order, s, x).to_multiset() =~= s.to_multiset().insert(x));
    } else if !feed_le(order, s[0], x) {
        vstd::seq_lib::lemma_multiset_commutative(seq![x], s);
        assert((seq![x] + s).to_multiset() =~= s.to_multiset().insert(x));
    } else {
        lemma_insert_feed_multiset(order, s.drop_first(), x);
        let t = insert_feed(order, s.drop_first(), x);
        vstd::seq_lib::lemma_multiset_commutative(seq![s[0]], t);
        vstd::seq_lib::lemma_multiset_commutative(seq![s[0]], s.drop_first());
        lemma_singleton_multiset(s[0]);
        assert(s =~= seq![s[0]] + s.drop_first());
        assert((seq![s[0]] + t).to_multiset() =~= s.to_multiset().insert(x));
    }
}

/// What sorting guarantees: the result is sorted under the order and holds
/// exactly the input items. Together with stability this makes the merged
/// feed deterministic for a fixed input.
pub proof fn lemma_sort_feed_ensures(order: FeedSortOrder, s: Seq<FeedItem>)
    ensures
        feed_sorted(order, sort_feed(order, s)),
        sort_feed(order, s).to_multiset() == s.to_multiset(),
    decreases s.len(),
{
    broadcast use vstd::seq_lib::group_to_multiset_ensures;

    if s.len() != 0 {
        lemma_sort_feed_ensures(order, s.drop_last());
        lemma_insert_feed_sorted(order, sort_feed(order, s.drop_last()), s.last());
        lemma_insert_feed_multiset(order, sort_feed(order, s.drop_last()), s.last());
        assert(s =~= s.drop_last().push(s.last()));
        assert(s.drop_last().push(s.last()).to_multiset() =~= s.drop_last().to_multiset().insert(
            s.last(),
        ));
    }
}

/// Sort feed items under an order, stably: items that compare equal keep
/// their input order.
pub fn sort_feed_items(items: Vec<FeedItem>, order: FeedSortOrder) -> (r: Vec<FeedItem>)
    requires
        forall|i: int| 0 <= i < items@.len() ==> (#[trigger] items@[i]).wf(),
    ensures
        r@ == sort_feed(order, items@),
{
    let item_count = items.len();
    let ghost orig = items@;
    proof {
        assert(orig.len() == item_count);
    }
    let mut rest = items;
    let mut r: Vec<FeedItem> = Vec::new();
    let mut k: usize = 0;
    proof {
        assert(rest@ =~= orig.skip(0));
        assert(orig.take(0) =~= Seq::<FeedItem>::empty());
    }
    while rest.len() > 0
        invariant
            forall|i: int| 0 <= i < orig.len() ==> (#[trigger] orig[i]).wf(),
            orig.len() <= usize::MAX,
            k <= orig.len(),
            rest@ == orig.skip(k as int),
            r@ == sort_feed(order, orig.take(k as int)),
            r@.len() == k,
            forall|i: int| 0 <= i < r@.len() ==> (#[trigger] r@[i]).wf(),
        decreases rest.len(),
    {
        let x = rest.remove(0);
        proof {
            assert(orig.skip(k as int)[0] == orig[k as int]);
            assert(orig.skip(k as int).remove(0) =~= orig.skip(k as int + 1));
        }
        let mut p: usize = 0;
        while p < r.len() && feed_le_exec(order, &r[p], &x)
            invariant
                forall|i: int| 0 <= i < r@.len() ==> (#[trigger] r@[i]).wf(),
                x.wf(),
                p <= r.len(),
                forall|q: int| 0 <= q < p ==> feed_le(order, #[trigger] r@[q], x),
            decreases r.len() - p,
        {
            p = p + 1;
        }
        proof {
            lemma_insert_feed_at(order, r@, x, p as int);
        }
        let ghost rbefore = r@;
        r.insert(p, x);
        proof {
            assert(r@ =~= rbefore.take(p as int) + seq![x] + rbefore.skip(p as int));
            assert(r@ == insert_feed(order, rbefore, x));
            assert(orig.take(k as int + 1).drop_last() =~= orig.take(k as int));
            assert(orig.take(k as int + 1).last() == x);
        }
        k = k + 1;
    }
    proof {
        assert(orig.take(k as int) =~= orig);
    }
    r
}

/// Compare two feed items under an order.
fn feed_le_exec(order: FeedSortOrder, a: &FeedItem, b: &FeedItem) -> (r: bool)
    requires
        a.wf(),
        b.wf(),
    ensures
        r == feed_le(order, *a, *b),
{
    match order {
        FeedSortOrder::Chronological => a.origin_server_ts >= b.origin_server_ts,
        FeedSortOrder::Engagement => a.engagement() >= b.engagement(),
        FeedSortOrder::GroupedByAuthor => {
            if str_eq(a.sender.as_str(), b.sender.as_str()) {
                a.origin_server_ts >= b.origin_server_ts
            } else {
                str_le(a.sender.as_str(), b.sender.as_str())
            }
        },
    }
}

/// The concatenation of per-source item batches, in source order.
pub open spec fn concat_batches(batches: Seq<Seq<FeedItem>>) -> Seq<FeedItem>
    decreases batches.len(),
{
    if batches.len() == 0 {
        Seq::empty()
    } else {
        concat_batches(batches.drop_last()) + batches.last()
    }
}

/// Service for aggregating feed items from multiple rooms: it owns the set
/// of tracked source rooms (membership unique) and the current sort order.
#[derive(Clone, Debug)]
pub struct FeedAggregator {
    feed_rooms: Vec<String>,
    sort_order: FeedSortOrder,
}

impl FeedAggregator {
    /// The tracked source rooms, in insertion order.
    pub closed spec fn rooms(&self) -> Seq<Seq<char>> {
        self.feed_rooms.deep_view()
    }

    /// The active sort order.
    pub closed spec fn order(&self) -> FeedSortOrder {
        self.sort_order
    }

    /// Tracked rooms are unique.
    pub closed spec fn wf(&self) -> bool {
        forall|i: int, j: int|
            0 <= i < self.rooms().len() && 0 <= j < self.rooms().len() && i != j
                ==> #[trigger] self.rooms()[i] != #[trigger] self.rooms()[j]
    }

    /// Create a new aggregator, tracking no rooms, in chronological order.
    pub fn new() -> (r: FeedAggregator)
        ensures
            r.wf(),
            r.rooms().len() == 0,
            r.order() is Chronological,
    {
        let r = FeedAggregator { feed_rooms: Vec::new(), sort_order: FeedSortOrder::default() };
        proof {
            assert(r.rooms() =~= Seq::<Seq<char>>::empty());
        }
        r
    }

    /// Add a feed room to the aggregation; adding a room already tracked is
    /// a no-op.
    pub fn add_feed_room(&mut self, room_id: String)
        requires
            old(self).wf(),
        ensures
            final(self).wf(),
            final(self).order() == old(self).order(),
            spec_contains_name(old(self).rooms(), room_id@) ==> final(self).rooms() == old(
                self,
            ).rooms(),
            !spec_contains_name(old(self).rooms(), room_id@) ==> final(self).rooms() == old(
                self,
            ).rooms().push(room_id@),
    {
        if !contains_name(&self.feed_rooms, room_id.as_str()) {
            let ghost before = self.rooms();
            self.feed_rooms.push(room_id);
            proof {
                assert(self.rooms() =~= before.push(room_id@));
            }
        }
    }

    /// Remove a feed room from aggregation; the other rooms keep their
    /// order.
    pub fn remove_feed_room(&mut self, room_id: &str)
        requires
            old(self).wf(),
        ensures
            final(self).wf(),
            final(self).order() == old(self).order(),
            final(self).rooms() == old(self).rooms().filter(|r: Seq<char>| r != room_id@),
    {
        let ghost before = self.rooms();
        let ghost keep = |r: Seq<char>| r != room_id@;
        let mut kept: Vec<String> = Vec::new();
        let mut i: usize = 0;
        proof {
            assert(before.take(0).filter(keep) =~= Seq::<Seq<char>>::empty());
            assert(kept.deep_view() =~= Seq::<Seq<char>>::empty());
        }
        while i < self.feed_rooms.len()
            invariant
                old(self).wf(),
                self == old(self),
                before == self.rooms(),
                before.len() == self.feed_rooms.len(),
                keep == (|r: Seq<char>| r != room_id@),
                i <= self.feed_rooms.len(),
                kept.deep_view() == before.take(i as int).filter(keep),
            decreases self.feed_rooms.len() - i,
        {
            proof {
                let t1 = before.take(i as int + 1);
                reveal_with_fuel(Seq::filter, 2);
                assert(t1.drop_last() =~= before.take(i as int));
                assert(t1.last() == before[i as int]);
                assert(before[i as int] == self.feed_rooms@[i as int]@);
            }
            if !str_eq(self.feed_rooms[i].as_str(), room_id) {
                let ghost kb = kept.deep_view();
                kept.push(self.feed_rooms[i].clone());
                proof {
                    assert(kept.deep_view() =~= kb.push(before[i as int]));
                }
            }
            i = i + 1;
        }
        proof {
            assert(before.take(i as int) =~= before);
        }
        self.feed_rooms = kept;
        proof {
            lemma_filter_distinct(before, keep);
        }
    }

    /// Check if a room is being aggregated.
    pub fn contains_room(&self, room_id: &str) -> (r: bool)
        ensures
            r == spec_contains_name(self.rooms(), room_id@),
    {
        contains_name(&self.feed_rooms, room_id)
    }

    /// Get the number of feed rooms being aggregated.
    pub fn room_count(&self) -> (r: usize)
        ensures
            r == self.rooms().len(),
    {
        self.feed_rooms.len()
    }

    /// Get the current sort order.
    pub fn sort_order(&self) -> (r: FeedSortOrder)
        ensures
            r == self.order(),
    {
        self.sort_order
    }

    /// Set the sort order for the feed.
    pub fn set_sort_order(&mut self, order: FeedSortOrder)
        ensures
            final(self).order() == order,
            final(self).rooms() == old(self).rooms(),
            old(self).wf() ==> final(self).wf(),
    {
        self.sort_order = order;
    }

    /// Merge the per-source item batches into one feed: concatenate them in
    /// source order, sort the concatenation under the active order, and
    /// truncate to `limit`. Sorting happens only after all batches are in,
    /// so the result does not depend on the order in which sources
    /// answered.
    pub fn get_aggregated_feed(&self, fetched: Vec<Vec<FeedItem>>, limit: usize) -> (r: Vec<
        FeedItem,
    >)
        requires
            forall|i: int, j: int|
                0 <= i < fetched@.len() && 0 <= j < fetched@[i]@.len() ==> (#[trigger] fetched@[i]@[j]).wf(),
        ensures
            ({
                let all = concat_batches(fetched@.map_values(|v: Vec<FeedItem>| v@));
                r@ == sort_feed(self.order(), all).take(
                    if limit as int <= all.len() {
                        limit as int
                    } else {
                        all.len() as int
                    },
                )
            }),
    {
        let batch_count = fetched.len();
        let ghost batches = fetched@.map_values(|v: Vec<FeedItem>| v@);
        proof {
            assert(batches.len() == batch_count);
        }
        let mut rest = fetched;
        let mut all_items: Vec<FeedItem> = Vec::new();
        let mut k: usize = 0;
        proof {
            assert(rest@.map_values(|v: Vec<FeedItem>| v@) =~= batches.skip(0));
            assert(concat_batches(batches.take(0)) =~= Seq::<FeedItem>::empty());
            assert(all_items@ =~= Seq::<FeedItem>::empty());
        }
        while rest.len() > 0
            invariant
                forall|i: int, j: int|
                    0 <= i < batches.len() && 0 <= j < batches[i].len() ==> (#[trigger] batches[i][j]).wf(),
                batches.len() <= usize::MAX,
                k <= batches.len(),
                rest@.map_values(|v: Vec<FeedItem>| v@) == batches.skip(k as int),
                all_items@ == concat_batches(batches.take(k as int)),
            decreases rest.len(),
        {
            let ghost prev = rest@;
            let ghost prevmap = rest@.map_values(|v: Vec<FeedItem>| v@);
            let mut batch = rest.remove(0);
            proof {
                assert(prevmap == batches.skip(k as int));
                assert(batch@ == prevmap[0]);
                assert(batch@ == batches[k as int]);
                assert(rest@ =~= prev.remove(0));
                let restmap = rest@.map_values(|v: Vec<FeedItem>| v@);
                assert forall|i: int| 0 <= i < rest@.len() implies #[trigger] restmap[i]
                    == batches.skip(k as int + 1)[i] by {
                    assert(rest@[i] == prev[i + 1]);
                    assert(prevmap[i + 1] == prev[i + 1]@);
                }
                assert(rest@.map_values(|v: Vec<FeedItem>| v@) =~= batches.skip(k as int + 1));
            }
            let ghost before = all_items@;
            all_items.append(&mut batch);
            proof {
                assert(batches.take(k as int + 1).drop_last() =~= batches.take(k as int));
                assert(batches.take(k as int + 1).last() == batches[k as int]);
                assert(all_items@ == concat_batches(batches.take(k as int + 1)));
            }
            k = k + 1;
        }
        proof {
            assert(batches.take(k as int) =~= batches);
            lemma_concat_batches_wf(batches);
        }
        let mut sorted = sort_feed_items(all_items, self.sort_order);
        proof {
            lemma_sort_feed_len(self.order(), concat_batches(batches));
        }
        sorted.truncate(limit);
        proof {
            let all = concat_batches(batches);
            if limit as int <= all.len() {
                assert(sorted@ =~= sort_feed(self.order(), all).take(limit as int));
            } else {
                assert(sorted@ =~= sort_feed(self.order(), all).take(all.len() as int));
            }
        }
        sorted
    }
}

/// Every item of a concatenation of well-formed batches is well-formed.
pub proof fn lemma_concat_batches_wf(batches: Seq<Seq<FeedItem>>)
    requires
        forall|i: int, j: int|
            0 <= i < batches.len() && 0 <= j < batches[i].len() ==> (#[trigger] batches[i][j]).wf(),
    ensures
        forall|t: int|
            0 <= t < concat_batches(batches).len() ==> (#[trigger] concat_batches(batches)[t]).wf(),
    decreases batches.len(),
{
    if batches.len() != 0 {
        assert forall|i: int, j: int|
            0 <= i < batches.drop_last().len() && 0 <= j
                < batches.drop_last()[i].len() implies (#[trigger] batches.drop_last()[i][j]).wf() by {
            assert(batches[i][j].wf());
        }
        lemma_concat_batches_wf(batches.drop_last());
        assert forall|t: int|
            0 <= t < concat_batches(batches).len() implies (#[trigger] concat_batches(
            batches,
        )[t]).wf() by {
            let d = concat_batches(batches.drop_last());
            if t < d.len() {
                assert(concat_batches(batches)[t] == d[t]);
            } else {
                assert(concat_batches(batches)[t] == batches.last()[t - d.len()]);
                assert(batches[batches.len() - 1][t - d.len()].wf());
            }
        }
    }
}

/// Errors that can occur when working with the feed aggregator.
#[derive(Clone, Debug)]
pub enum FeedError {
    /// No feed rooms are being tracked.
    NoFeedRooms,
    /// A room was not found.
    RoomNotFound(String),
    /// Failed to fetch timeline data.
    TimelineFetchError(String),
    /// An error reported by the protocol layer, passed through unchanged.
    MatrixError(String),
}

impl FeedError {
    /// A human-readable description of the error.
    pub fn message(&self) -> (r: String)
        ensures
            self is NoFeedRooms ==> r@ == "No feed rooms configured"@,
            self matches FeedError::RoomNotFound(id) ==> r@ == "Room not found: "@ + id@,
            self matches FeedError::TimelineFetchError(s) ==> r@ == "Failed to fetch timeline: "@
                + s@,
            self matches FeedError::MatrixError(s) ==> r@ == "Matrix error: "@ + s@,
    {
        match self {
            FeedError::NoFeedRooms => String::from_str("No feed rooms configured"),
            FeedError::RoomNotFound(id) => {
                let mut m = String::from_str("Room not found: ");
                m.append(id.as_str());
                m
            },
            FeedError::TimelineFetchError(s) => {
                let mut m = String::from_str("Failed to fetch timeline: ");
                m.append(s.as_str());
                m
            },
            FeedError::MatrixError(s) => {
                let mut m = String::from_str("Matrix error: ");
                m.append(s.as_str());
                m
            },
        }
    }
}

} // verus!
