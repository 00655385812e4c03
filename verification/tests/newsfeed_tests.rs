//! Newsfeed aggregation and filtering tests: engagement, the three sort
//! orders, batch merging, and the feed filter.

use robrix_social::feed_filter::{ContentFilter, FeedFilterSettings};
use robrix_social::newsfeed::{FeedAggregator, FeedError, FeedItem, FeedSortOrder};
use robrix_social::post::PostContent;

fn text_content(body: &str) -> PostContent {
    PostContent::Text {
        body: body.to_string(),
        formatted_body: None,
        mentions: Vec::new(),
    }
}

fn make_item(sender: &str, ts: u64, engagement: u32) -> FeedItem {
    FeedItem {
        room_id: "!room:example.org".to_string(),
        event_id: format!("$event{}:example.org", ts),
        sender: sender.to_string(),
        origin_server_ts: ts,
        content: text_content("Test"),
        reactions: if engagement > 0 {
            vec![("👍".to_string(), engagement)]
        } else {
            Vec::new()
        },
        comment_count: 0,
    }
}

#[test]
fn test_feed_sort_order_default() {
    let order = FeedSortOrder::default();
    assert_eq!(order, FeedSortOrder::Chronological);
}

#[test]
fn test_feed_item_engagement() {
    let item = FeedItem {
        room_id: "!room:example.org".to_string(),
        event_id: "$event:example.org".to_string(),
        sender: "@user:example.org".to_string(),
        origin_server_ts: 0,
        content: text_content("Test"),
        reactions: vec![("👍".to_string(), 5), ("❤️".to_string(), 3)],
        comment_count: 2,
    };

    assert_eq!(item.engagement(), 10); // 5 + 3 + 2
}

#[test]
fn test_aggregator_rooms() {
    let mut agg = FeedAggregator::new();
    assert_eq!(agg.room_count(), 0);
    assert_eq!(agg.sort_order(), FeedSortOrder::Chronological);

    agg.add_feed_room("!one:example.org".to_string());
    agg.add_feed_room("!two:example.org".to_string());
    agg.add_feed_room("!one:example.org".to_string()); // duplicate is a no-op
    assert_eq!(agg.room_count(), 2);
    assert!(agg.contains_room("!one:example.org"));
    assert!(agg.contains_room("!two:example.org"));
    assert!(!agg.contains_room("!three:example.org"));

    agg.remove_feed_room("!one:example.org");
    assert_eq!(agg.room_count(), 1);
    assert!(!agg.contains_room("!one:example.org"));

    agg.set_sort_order(FeedSortOrder::Engagement);
    assert_eq!(agg.sort_order(), FeedSortOrder::Engagement);
}

/// Items with engagement scores 3, 10 and 1 come back ordered 10, 3, 1.
#[test]
fn test_engagement_sort_order() {
    let mut agg = FeedAggregator::new();
    agg.set_sort_order(FeedSortOrder::Engagement);

    let fetched = vec![vec![
        make_item("@a:example.org", 1, 3),
        make_item("@b:example.org", 2, 10),
        make_item("@c:example.org", 3, 1),
    ]];
    let feed = agg.get_aggregated_feed(fetched, 10);
    let scores: Vec<u32> = feed.iter().map(|i| i.engagement()).collect();
    assert_eq!(scores, vec![10, 3, 1]);
}

#[test]
fn test_chronological_sort_order() {
    let agg = FeedAggregator::new();

    let fetched = vec![
        vec![make_item("@a:example.org", 100, 0)],
        vec![make_item("@b:example.org", 300, 0), make_item("@c:example.org", 200, 0)],
    ];
    let feed = agg.get_aggregated_feed(fetched, 10);
    let stamps: Vec<u64> = feed.iter().map(|i| i.origin_server_ts).collect();
    assert_eq!(stamps, vec![300, 200, 100]);
}

#[test]
fn test_grouped_by_author_sort_order() {
    let mut agg = FeedAggregator::new();
    agg.set_sort_order(FeedSortOrder::GroupedByAuthor);

    let fetched = vec![vec![
        make_item("@bob:example.org", 100, 0),
        make_item("@alice:example.org", 50, 0),
        make_item("@bob:example.org", 200, 0),
        make_item("@alice:example.org", 75, 0),
    ]];
    let feed = agg.get_aggregated_feed(fetched, 10);
    let keys: Vec<(String, u64)> = feed
        .iter()
        .map(|i| (i.sender.clone(), i.origin_server_ts))
        .collect();
    assert_eq!(
        keys,
        vec![
            ("@alice:example.org".to_string(), 75),
            ("@alice:example.org".to_string(), 50),
            ("@bob:example.org".to_string(), 200),
            ("@bob:example.org".to_string(), 100),
        ]
    );
}

#[test]
fn test_aggregated_feed_truncates() {
    let agg = FeedAggregator::new();
    let fetched = vec![vec![
        make_item("@a:example.org", 1, 0),
        make_item("@b:example.org", 2, 0),
        make_item("@c:example.org", 3, 0),
    ]];
    let feed = agg.get_aggregated_feed(fetched, 2);
    assert_eq!(feed.len(), 2);
    assert_eq!(feed[0].origin_server_ts, 3);
    assert_eq!(feed[1].origin_server_ts, 2);
}

#[test]
fn test_content_filter_all() {
    let filter = ContentFilter::All;
    let item = make_item("@user:example.org", 0, 0);
    assert!(filter.matches(&item));
}

#[test]
fn test_content_filter_text_only() {
    let filter = ContentFilter::TextOnly;
    let item = make_item("@user:example.org", 0, 0);
    assert!(filter.matches(&item));
}

#[test]
fn test_content_filter_media_and_links() {
    let mut image_item = make_item("@user:example.org", 0, 0);
    image_item.content = PostContent::Image {
        mxc_uri: "mxc://example.org/pic".to_string(),
        caption: None,
        thumbnail_uri: None,
        width: 1,
        height: 1,
    };
    let mut link_item = make_item("@user:example.org", 0, 0);
    link_item.content = PostContent::Link {
        url: "https://example.org".to_string(),
        comment: None,
        preview: None,
    };

    assert!(ContentFilter::MediaOnly.matches(&image_item));
    assert!(!ContentFilter::MediaOnly.matches(&link_item));
    assert!(ContentFilter::LinksOnly.matches(&link_item));
    assert!(!ContentFilter::LinksOnly.matches(&image_item));
    assert!(!ContentFilter::TextOnly.matches(&image_item));
}

#[test]
fn test_filter_settings_muted_author() {
    let settings =
        FeedFilterSettings::new().with_muted_authors(vec!["@muted:example.org".to_string()]);

    let muted_item = make_item("@muted:example.org", 0, 0);
    let normal_item = make_item("@user:example.org", 0, 0);

    assert!(!settings.matches(&muted_item));
    assert!(settings.matches(&normal_item));
}

#[test]
fn test_filter_settings_min_engagement() {
    let settings = FeedFilterSettings::new().with_min_engagement(5);

    let low_engagement = make_item("@user:example.org", 0, 2);
    let high_engagement = make_item("@user:example.org", 0, 10);

    assert!(!settings.matches(&low_engagement));
    assert!(settings.matches(&high_engagement));
}

#[test]
fn test_filter_settings_authors_allow_list() {
    let settings =
        FeedFilterSettings::new().with_authors(vec!["@a:example.org".to_string()]);

    assert!(settings.matches(&make_item("@a:example.org", 0, 0)));
    assert!(!settings.matches(&make_item("@b:example.org", 0, 0)));

    // An empty allow-list lets everyone through.
    let open_settings = FeedFilterSettings::new();
    assert!(open_settings.matches(&make_item("@b:example.org", 0, 0)));
}

#[test]
fn test_filter_settings_apply() {
    let settings =
        FeedFilterSettings::new().with_muted_authors(vec!["@muted:example.org".to_string()]);

    let items = vec![
        make_item("@user1:example.org", 0, 0),
        make_item("@muted:example.org", 0, 0),
        make_item("@user2:example.org", 0, 0),
    ];

    let filtered = settings.apply(items);
    assert_eq!(filtered.len(), 2);
}

/// Applying the same filter twice yields the same result as applying it
/// once.
#[test]
fn test_filter_apply_idempotent() {
    let settings = FeedFilterSettings::new()
        .with_muted_authors(vec!["@muted:example.org".to_string()])
        .with_min_engagement(2);

    let items = vec![
        make_item("@user1:example.org", 0, 5),
        make_item("@muted:example.org", 0, 9),
        make_item("@user2:example.org", 0, 1),
        make_item("@user3:example.org", 0, 2),
    ];

    let once = settings.apply(items);
    let senders_once: Vec<String> = once.iter().map(|i| i.sender.clone()).collect();
    let twice = settings.apply(once);
    let senders_twice: Vec<String> = twice.iter().map(|i| i.sender.clone()).collect();
    assert_eq!(senders_once, senders_twice);
    assert_eq!(senders_twice.len(), 2);
}

#[test]
fn test_has_active_filters() {
    let default_settings = FeedFilterSettings::new();
    assert!(!default_settings.has_active_filters());

    let with_filter = FeedFilterSettings::new().with_min_engagement(1);
    assert!(with_filter.has_active_filters());
}

#[test]
fn test_filter_reset_and_unmute() {
    let mut settings =
        FeedFilterSettings::new().with_muted_authors(vec!["@muted:example.org".to_string()]);
    settings.mute_author("@other:example.org".to_string());
    assert!(settings.has_active_filters());

    settings.unmute_author("@muted:example.org");
    assert_eq!(settings.muted_authors, vec!["@other:example.org".to_string()]);

    settings.reset();
    assert!(!settings.has_active_filters());
}

#[test]
fn test_feed_error_messages() {
    assert_eq!(FeedError::NoFeedRooms.message(), "No feed rooms configured");
    assert_eq!(
        FeedError::RoomNotFound("!r:example.org".to_string()).message(),
        "Room not found: !r:example.org"
    );
    assert_eq!(
        FeedError::TimelineFetchError("timeout".to_string()).message(),
        "Failed to fetch timeline: timeout"
    );
}
