//! Feed filtering for the aggregated newsfeed.
//!
//! A filter setting is a total predicate on feed items: a content-type
//! criterion, an author allow-list (empty meaning everyone), an author mute
//! list, and a minimum engagement, combined by conjunction. Applying the
//! filter keeps the surviving items in their order, and applying it twice
//! filters nothing further.

use vstd::prelude::*;

use crate::newsfeed::FeedItem;
use crate::newsfeed::spec_engagement;
use crate::post::PostContent;
use crate::text::contains_name;
use crate::text::spec_contains_name;

verus! {

/// Content type filter for feed items.
#[derive(Clone, Copy, Debug, PartialEq, Eq, Structural, Hash)]
pub enum ContentFilter {
    /// Show all content types.
    All,
    /// Show only text posts.
    TextOnly,
    /// Show only media posts (images and videos).
    MediaOnly,
    /// Show only posts with links.
    LinksOnly,
}

impl Default for ContentFilter {
    /// By default every content type is shown.
    fn default() -> (r: ContentFilter)
        ensures
            r is All,
    {
        ContentFilter::All
    }
}

/// Whether a post's content passes a content-type filter.
pub open spec fn spec_content_matches(f: ContentFilter, c: PostContent) -> bool {
    match f {
        ContentFilter::All => true,
        ContentFilter::TextOnly => c is Text,
        ContentFilter::MediaOnly => c is Image || c is Video,
        ContentFilter::LinksOnly => c is Link,
    }
}

impl ContentFilter {
    /// Check if a feed item matches this filter.
    pub fn matches(&self, item: &FeedItem) -> (r: bool)
        ensures
            r == spec_content_matches(*self, item.content),
    {
        match self {
            ContentFilter::All => true,
            ContentFilter::TextOnly => matches!(item.content, PostContent::Text { .. }),
            ContentFilter::MediaOnly => matches!(
                item.content,
                PostContent::Image { .. } | PostContent::Video { .. }
            ),
            ContentFilter::LinksOnly => matches!(item.content, PostContent::Link { .. }),
        }
    }
}

/// Settings for filtering the newsfeed: each criterion narrows the feed,
/// and together they are a conjunction.
#[derive(Clone, Debug)]
pub struct FeedFilterSettings {
    /// Filter by content type.
    pub content_filter: ContentFilter,
    /// Show only posts from these users (empty = show all).
    pub authors: Vec<String>,
    /// Hide posts from these users.
    pub muted_authors: Vec<String>,
    /// Minimum engagement threshold (0 = no minimum).
    pub min_engagement: u32,
    /// Only show posts newer than this many seconds (0 = no limit); checked
    /// by the caller, who knows the current time.
    pub max_age_seconds: u64,
}

/// Whether a feed item passes every criterion of the settings.
pub open spec fn spec_filter_matches(s: FeedFilterSettings, item: FeedItem) -> bool {
    &&& spec_content_matches(s.content_filter, item.content)
    &&& (s.authors@.len() == 0 || spec_contains_name(s.authors.deep_view(), item.sender@))
    &&& !spec_contains_name(s.muted_authors.deep_view(), item.sender@)
    &&& (s.min_engagement == 0 || spec_engagement(item) >= s.min_engagement)
}

/// Whether settings are exactly the all-pass default.
pub open spec fn spec_is_default(s: FeedFilterSettings) -> bool {
    &&& s.content_filter is All
    &&& s.authors@.len() == 0
    &&& s.muted_authors@.len() == 0
    &&& s.min_engagement == 0
    &&& s.max_age_seconds == 0
}

impl FeedFilterSettings {
    /// Create a new filter with default settings (show all).
    pub fn new() -> (r: FeedFilterSettings)
        ensures
            spec_is_default(r),
    {
        FeedFilterSettings {
            content_filter: ContentFilter::All,
            authors: Vec::new(),
            muted_authors: Vec::new(),
            min_engagement: 0,
            max_age_seconds: 0,
        }
    }

    /// Set the content type filter.
    pub fn with_content_filter(self, filter: ContentFilter) -> (r: FeedFilterSettings)
        ensures
            r.content_filter == filter,
            r.authors == self.authors,
            r.muted_authors == self.muted_authors,
            r.min_engagement == self.min_engagement,
            r.max_age_seconds == self.max_age_seconds,
    {
        FeedFilterSettings { content_filter: filter, ..self }
    }

    /// Filter to show only posts from specific authors.
    pub fn with_authors(self, authors: Vec<String>) -> (r: FeedFilterSettings)
        ensures
            r.content_filter == self.content_filter,
            r.authors == authors,
            r.muted_authors == self.muted_authors,
            r.min_engagement == self.min_engagement,
            r.max_age_seconds == self.max_age_seconds,
    {
        FeedFilterSettings { authors, ..self }
    }

    /// Add an author to the allowed list.
    pub fn add_author(&mut self, author: String)
        ensures
            final(self).authors@ == old(self).authors@.push(author),
            final(self).content_filter == old(self).content_filter,
            final(self).muted_authors == old(self).muted_authors,
            final(self).min_engagement == old(self).min_engagement,
            final(self).max_age_seconds == old(self).max_age_seconds,
    {
        self.authors.push(author);
    }

    /// Mute posts from specific users.
    pub fn with_muted_authors(self, authors: Vec<String>) -> (r: FeedFilterSettings)
        ensures
            r.content_filter == self.content_filter,
            r.authors == self.authors,
            r.muted_authors == authors,
            r.min_engagement == self.min_engagement,
            r.max_age_seconds == self.max_age_seconds,
    {
        FeedFilterSettings { muted_authors: authors, ..self }
    }

    /// Mute a specific user.
    pub fn mute_author(&mut self, author: String)
        ensures
            final(self).muted_authors@ == old(self).muted_authors@.push(author),
            final(self).content_filter == old(self).content_filter,
            final(self).authors == old(self).authors,
            final(self).min_engagement == old(self).min_engagement,
            final(self).max_age_seconds == old(self).max_age_seconds,
    {
        self.muted_authors.push(author);
    }

    /// Unmute a specific user, dropping every list entry equal to it.
    pub fn unmute_author(&mut self, author: &str)
        ensures
            final(self).muted_authors.deep_view() == old(self).muted_authors.deep_view().filter(
                |a: Seq<char>| a != author@,
            ),
            final(self).content_filter == old(self).content_filter,
            final(self).authors == old(self).authors,
            final(self).min_engagement == old(self).min_engagement,
            final(self).max_age_seconds == old(self).max_age_seconds,
    {
        let ghost before = self.muted_authors.deep_view();
        let ghost keep = |a: Seq<char>| a != author@;
        let mut kept: Vec<String> = Vec::new();
        let mut i: usize = 0;
        proof {
            assert(before.take(0).filter(keep) =~= Seq::<Seq<char>>::empty());
            assert(kept.deep_view() =~= Seq::<Seq<char>>::empty());
        }
        while i < self.muted_authors.len()
            invariant
                self == old(self),
                before == self.muted_authors.deep_view(),
                before.len() == self.muted_authors.len(),
                keep == (|a: Seq<char>| a != author@),
                i <= self.muted_authors.len(),
                kept.deep_view() == before.take(i as int).filter(keep),
            decreases self.muted_authors.len() - i,
        {
            proof {
                let t1 = before.take(i as int + 1);
                reveal_with_fuel(Seq::filter, 2);
                assert(t1.drop_last() =~= before.take(i as int));
                assert(t1.last() == before[i as int]);
                assert(before[i as int] == self.muted_authors@[i as int]@);
            }
            if !crate::text::str_eq(self.muted_authors[i].as_str(), author) {
                let ghost kb = kept.deep_view();
                kept.push(self.muted_authors[i].clone());
                proof {
                    assert(kept.deep_view() =~= kb.push(before[i as int]));
                }
            }
            i = i + 1;
        }
        proof {
            assert(before.take(i as int) =~= before);
        }
        self.muted_authors = kept;
    }

    /// Set the minimum engagement threshold.
    pub fn with_min_engagement(self, min: u32) -> (r: FeedFilterSettings)
        ensures
            r.content_filter == self.content_filter,
            r.authors == self.authors,
            r.muted_authors == self.muted_authors,
            r.min_engagement == min,
            r.max_age_seconds == self.max_age_seconds,
    {
        FeedFilterSettings { min_engagement: min, ..self }
    }

    /// Set the maximum post age in seconds.
    pub fn with_max_age(self, seconds: u64) -> (r: FeedFilterSettings)
        ensures
            r.content_filter == self.content_filter,
            r.authors == self.authors,
            r.muted_authors == self.muted_authors,
            r.min_engagement == self.min_engagement,
            r.max_age_seconds == seconds,
    {
        FeedFilterSettings { max_age_seconds: seconds, ..self }
    }

    /// Check if a feed item passes all filters.
    pub fn matches(&self, item: &FeedItem) -> (r: bool)
        requires
            item.wf(),
        ensures
            r == spec_filter_matches(*self, *item),
    {
        if !self.content_filter.matches(item) {
            return false;
        }
        if self.authors.len() > 0 && !contains_name(&self.authors, item.sender.as_str()) {
            return false;
        }
        if contains_name(&self.muted_authors, item.sender.as_str()) {
            return false;
        }
        if self.min_engagement > 0 && item.engagement() < self.min_engagement {
            return false;
        }
        true
    }

    /// Apply this filter to a list of feed items, keeping exactly the
    /// matching items in their order.
    pub fn apply(&self, items: Vec<FeedItem>) -> (r: Vec<FeedItem>)
        requires
            forall|i: int| 0 <= i < items@.len() ==> (#[trigger] items@[i]).wf(),
        ensures
            r@ == items@.filter(|it: FeedItem| spec_filter_matches(*self, it)),
    {
        let item_count = items.len();
        let ghost orig = items@;
        let ghost pred = |it: FeedItem| spec_filter_matches(*self, it);
        proof {
            assert(orig.len() == item_count);
        }
        let mut rest = items;
        let mut r: Vec<FeedItem> = Vec::new();
        let mut k: usize = 0;
        proof {
            assert(rest@ =~= orig.skip(0));
            assert(orig.take(0).filter(pred) =~= Seq::<FeedItem>::empty());
            assert(r@ =~= Seq::<FeedItem>::empty());
        }
        while rest.len() > 0
            invariant
                forall|i: int| 0 <= i < orig.len() ==> (#[trigger] orig[i]).wf(),
                pred == (|it: FeedItem| spec_filter_matches(*self, it)),
                orig.len() <= usize::MAX,
                k <= orig.len(),
                rest@ == orig.skip(k as int),
                r@ == orig.take(k as int).filter(pred),
            decreases rest.len(),
        {
            let x = rest.remove(0);
            proof {
                assert(orig.skip(k as int)[0] == orig[k as int]);
                assert(x == orig[k as int]);
                assert(orig.skip(k as int).remove(0) =~= orig.skip(k as int + 1));
                let t1 = orig.take(k as int + 1);
                reveal_with_fuel(Seq::filter, 2);
                assert(t1.drop_last() =~= orig.take(k as int));
                assert(t1.last() == x);
            }
            if self.matches(&x) {
                r.push(x);
            }
            k = k + 1;
        }
        proof {
            assert(orig.take(k as int) =~= orig);
        }
        r
    }

    /// Check if any filters are active: whether the settings differ from
    /// the all-pass default.
    pub fn has_active_filters(&self) -> (r: bool)
        ensures
            r == !spec_is_default(*self),
    {
        !matches!(self.content_filter, ContentFilter::All) || self.authors.len() > 0
            || self.muted_authors.len() > 0 || self.min_engagement > 0 || self.max_age_seconds > 0
    }

    /// Reset all filters to the all-pass default.
    pub fn reset(&mut self)
        ensures
            spec_is_default(*final(self)),
    {
        *self = FeedFilterSettings::new();
    }
}

/// A sequence whose items all satisfy a predicate is its own filtrate.
pub proof fn lemma_filter_all_matching(s: Seq<FeedItem>, pred: spec_fn(FeedItem) -> bool)
    requires
        forall|i: int| 0 <= i < s.len() ==> pred(#[trigger] s[i]),
    ensures
        s.filter(pred) == s,
    decreases s.len(),
{
    reveal_with_fuel(Seq::filter, 2);
    if s.len() != 0 {
        assert forall|i: int| 0 <= i < s.drop_last().len() implies pred(
            #[trigger] s.drop_last()[i],
        ) by {
            assert(pred(s[i]));
        }
        lemma_filter_all_matching(s.drop_last(), pred);
        assert(pred(s.last()));
        assert(s.filter(pred) == s.drop_last().push(s.last()));
        assert(s.drop_last().push(s.last()) =~= s);
    }
}

/// Applying a filter is idempotent: filtering an already filtered feed
/// changes nothing, whatever the settings.
pub proof fn lemma_apply_idempotent(settings: FeedFilterSettings, items: Seq<FeedItem>)
    ensures
        ({
            let pred = |it: FeedItem| spec_filter_matches(settings, it);
            items.filter(pred).filter(pred) == items.filter(pred)
        }),
{
    let pred = |it: FeedItem| spec_filter_matches(settings, it);
    let once = items.filter(pred);
    assert forall|i: int| 0 <= i < once.len() implies pred(#[trigger] once[i]) by {
        items.lemma_filter_pred(pred, i);
    }
    lemma_filter_all_matching(once, pred);
}

} // verus!
