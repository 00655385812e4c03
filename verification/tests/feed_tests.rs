//! Feed room and post tests.

use robrix_social::feed_room::{FeedPrivacy, FeedRoomError, HistoryVisibilityKind, JoinRuleKind,
    UserFeeds};
use robrix_social::post::{Post, PostContent, RoomMessageContent};

#[test]
fn feed_room_test_feed_privacy_ordering() {
    assert!(FeedPrivacy::Public < FeedPrivacy::Friends);
    assert!(FeedPrivacy::Friends < FeedPrivacy::CloseFriends);
}

#[test]
fn feed_room_test_feed_privacy_display() {
    assert_eq!(FeedPrivacy::Public.feed_name(), "Public Feed");
    assert_eq!(FeedPrivacy::Friends.feed_name(), "Friends Feed");
    assert_eq!(FeedPrivacy::CloseFriends.feed_name(), "Close Friends Feed");
}

#[test]
fn test_feed_privacy_ordering() {
    assert!(FeedPrivacy::Public < FeedPrivacy::Friends);
    assert!(FeedPrivacy::Friends < FeedPrivacy::CloseFriends);

    // Verify full ordering
    assert!(FeedPrivacy::Public < FeedPrivacy::CloseFriends);
}

#[test]
fn test_feed_privacy_display() {
    assert_eq!(FeedPrivacy::Public.feed_name(), "Public Feed");
    assert_eq!(FeedPrivacy::Friends.feed_name(), "Friends Feed");
    assert_eq!(FeedPrivacy::CloseFriends.feed_name(), "Close Friends Feed");
}

#[test]
fn test_feed_privacy_alias_suffix() {
    assert_eq!(FeedPrivacy::Public.alias_suffix(), "_public");
    assert_eq!(FeedPrivacy::Friends.alias_suffix(), "_friends");
    assert_eq!(FeedPrivacy::CloseFriends.alias_suffix(), "_close");
}

#[test]
fn test_feed_privacy_room_config() {
    assert_eq!(FeedPrivacy::Public.join_rule(), JoinRuleKind::Public);
    assert_eq!(FeedPrivacy::Friends.join_rule(), JoinRuleKind::Invite);
    assert_eq!(FeedPrivacy::CloseFriends.join_rule(), JoinRuleKind::Invite);

    assert_eq!(
        FeedPrivacy::Public.history_visibility(),
        HistoryVisibilityKind::WorldReadable
    );
    assert_eq!(
        FeedPrivacy::Friends.history_visibility(),
        HistoryVisibilityKind::Shared
    );
    assert_eq!(
        FeedPrivacy::CloseFriends.history_visibility(),
        HistoryVisibilityKind::Shared
    );
}

#[test]
fn test_feed_room_name() {
    assert_eq!(
        robrix_social::feed_room::feed_room_name("alice", FeedPrivacy::Friends),
        "alice's Friends Feed"
    );
}

#[test]
fn test_user_feeds_default() {
    let feeds = UserFeeds::default();
    assert!(!feeds.has_any());
    assert!(feeds.public.is_none());
    assert!(feeds.friends.is_none());
    assert!(feeds.close_friends.is_none());
}

#[test]
fn feed_room_test_user_feeds_has_any() {
    let empty = UserFeeds::default();
    assert!(!empty.has_any());

    let with_public = UserFeeds {
        public: Some("!room:example.org".to_string()),
        ..Default::default()
    };
    assert!(with_public.has_any());
}

#[test]
fn test_user_feeds_has_any() {
    let room_id = "!test:example.org".to_string();

    let with_public = UserFeeds {
        public: Some(room_id.clone()),
        ..Default::default()
    };
    assert!(with_public.has_any());

    let with_friends = UserFeeds {
        friends: Some(room_id.clone()),
        ..Default::default()
    };
    assert!(with_friends.has_any());

    let with_close = UserFeeds {
        close_friends: Some(room_id),
        ..Default::default()
    };
    assert!(with_close.has_any());
}

#[test]
fn test_user_feeds_get() {
    let public_room = "!public:example.org".to_string();
    let friends_room = "!friends:example.org".to_string();

    let feeds = UserFeeds {
        public: Some(public_room.clone()),
        friends: Some(friends_room.clone()),
        close_friends: None,
    };

    assert_eq!(feeds.get(FeedPrivacy::Public), Some(&public_room));
    assert_eq!(feeds.get(FeedPrivacy::Friends), Some(&friends_room));
    assert_eq!(feeds.get(FeedPrivacy::CloseFriends), None);
}

#[test]
fn test_user_feeds_all() {
    let room1 = "!room1:example.org".to_string();
    let room2 = "!room2:example.org".to_string();

    let feeds = UserFeeds {
        public: Some(room1),
        friends: Some(room2),
        close_friends: None,
    };

    let all = feeds.all();
    assert_eq!(all.len(), 2);
}

#[test]
fn test_text_post_creation() {
    let post = Post::text("Hello, world!");
    assert!(matches!(post.content, PostContent::Text { body, .. } if body == "Hello, world!"));
    assert_eq!(post.privacy_levels, vec![FeedPrivacy::Public]);
}

#[test]
fn test_post_text_creation() {
    let post = Post::text("Hello, world!");
    assert!(matches!(
        post.content,
        PostContent::Text { body, .. } if body == "Hello, world!"
    ));
    assert_eq!(post.privacy_levels, vec![FeedPrivacy::Public]);
}

#[test]
fn post_test_post_with_privacy() {
    let post = Post::text("Test").with_privacy(vec![FeedPrivacy::Friends]);
    assert_eq!(post.privacy_levels, vec![FeedPrivacy::Friends]);
}

#[test]
fn test_post_with_privacy() {
    let post = Post::text("Friends only post").with_privacy(vec![FeedPrivacy::Friends]);
    assert_eq!(post.privacy_levels, vec![FeedPrivacy::Friends]);
}

#[test]
fn test_post_with_targets() {
    let room = "!target:example.org".to_string();
    let post = Post::text("Targeted post").with_targets(vec![room.clone()]);
    assert_eq!(post.targets, vec![room]);
}

#[test]
fn test_image_post_with_caption() {
    let post = Post::image("mxc://example.org/abc123", 800, 600).with_caption("A nice photo");
    assert!(matches!(
        post.content,
        PostContent::Image { caption: Some(c), .. } if c == "A nice photo"
    ));
}

#[test]
fn test_post_image_with_caption() {
    let post = Post::image("mxc://example.org/abc123", 800, 600)
        .with_caption("A beautiful sunset");

    assert!(matches!(
        post.content,
        PostContent::Image { caption: Some(c), width: 800, height: 600, .. } if c == "A beautiful sunset"
    ));
}

#[test]
fn test_post_video_creation() {
    let mxc = "mxc://example.org/video456".to_string();
    let post = Post::video(&mxc);

    assert!(matches!(post.content, PostContent::Video { mxc_uri, .. } if mxc_uri == mxc));
}

#[test]
fn test_post_link_creation() {
    let url = "https://example.org/article".to_string();
    let post = Post::link(&url).with_caption("Check this out!");

    assert!(
        matches!(post.content, PostContent::Link { url: u, comment: Some(c), .. } if u == url && c == "Check this out!")
    );
}

#[test]
fn test_text_to_room_message() {
    let post = Post::text("Hello");
    let msg = post.into_room_message();
    assert!(matches!(msg, RoomMessageContent::Text { .. }));
}

#[test]
fn test_post_to_room_message() {
    let post = Post::text("Test message");
    let msg = post.into_room_message();
    assert!(matches!(msg, RoomMessageContent::Text { .. }));
}

/// A link post renders as text with an HTML body in which user-supplied
/// strings are escaped, while the URL passes through.
#[test]
fn test_link_to_room_message_escapes() {
    let post = Post::link("https://example.org/a").with_caption("tags <b> & such");
    let msg = post.into_room_message();
    match msg {
        RoomMessageContent::Text {
            body,
            formatted_body,
            mentions,
        } => {
            assert_eq!(body, "tags <b> & such\n\nhttps://example.org/a");
            let html = formatted_body.unwrap();
            assert_eq!(
                html,
                "<p>tags &lt;b&gt; &amp; such</p><p><a href=\"https://example.org/a\">https://example.org/a</a></p>"
            );
            assert!(mentions.is_empty());
        }
        other => panic!("expected a text message, got {:?}", other),
    }
}

#[test]
fn test_feed_room_error_display() {
    let not_logged_in = FeedRoomError::NotLoggedIn;
    assert_eq!(not_logged_in.message(), "Not logged in");

    let feed_not_found = FeedRoomError::FeedNotFound;
    assert_eq!(feed_not_found.message(), "Feed room not found");

    let access_denied = FeedRoomError::AccessDenied;
    assert_eq!(access_denied.message(), "Access denied to feed room");
}

#[test]
fn test_feed_room_already_exists_error() {
    let error = FeedRoomError::AlreadyExists(FeedPrivacy::Public);
    let error_str = error.message();
    assert!(error_str.contains("Public"));
    assert!(error_str.contains("already exists"));
}
