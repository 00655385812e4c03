//! Friend network tests: relationship states, pending requests, the friends
//! space cache and naming, and the error taxonomy.

use robrix_social::friends::{friends_space_name, FriendRequestError, FriendRequestState,
    FriendsError, FriendsSpaceCache, PendingFriendRequest};

#[test]
fn test_friend_request_state_equality() {
    assert_eq!(
        FriendRequestState::NotConnected,
        FriendRequestState::NotConnected
    );
    assert_eq!(FriendRequestState::Friends, FriendRequestState::Friends);
    assert_eq!(
        FriendRequestState::PendingOutgoing,
        FriendRequestState::PendingOutgoing
    );
    assert_eq!(
        FriendRequestState::PendingIncoming,
        FriendRequestState::PendingIncoming
    );
    assert_eq!(FriendRequestState::Blocked, FriendRequestState::Blocked);

    assert_ne!(
        FriendRequestState::NotConnected,
        FriendRequestState::Friends
    );
    assert_ne!(
        FriendRequestState::PendingOutgoing,
        FriendRequestState::PendingIncoming
    );
}

#[test]
fn test_friend_request_state_debug() {
    let debug_str = format!("{:?}", FriendRequestState::Friends);
    assert!(debug_str.contains("Friends"));

    let debug_str = format!("{:?}", FriendRequestState::PendingOutgoing);
    assert!(debug_str.contains("PendingOutgoing"));
}

#[test]
fn test_friend_request_error_display() {
    let room_not_found = FriendRequestError::RoomNotFound;
    assert_eq!(room_not_found.message(), "Room not found");

    let not_logged_in = FriendRequestError::NotLoggedIn;
    assert_eq!(not_logged_in.message(), "Not logged in");

    let already_pending = FriendRequestError::RequestAlreadyPending;
    assert_eq!(already_pending.message(), "Friend request already pending");

    let already_friends = FriendRequestError::AlreadyFriends;
    assert_eq!(already_friends.message(), "Already friends");

    let user_blocked = FriendRequestError::UserBlocked;
    assert_eq!(user_blocked.message(), "User is blocked");

    let cannot_friend_self = FriendRequestError::CannotFriendSelf;
    assert_eq!(
        cannot_friend_self.message(),
        "Cannot send friend request to yourself"
    );
}

#[test]
fn test_friends_error_display() {
    let not_logged_in = FriendsError::NotLoggedIn;
    assert_eq!(not_logged_in.message(), "Not logged in");

    let space_not_found = FriendsError::SpaceNotFound;
    assert_eq!(space_not_found.message(), "Friends space not found");

    let feed_not_found = FriendsError::FeedRoomNotFound;
    assert_eq!(feed_not_found.message(), "Friend's feed room not found");

    let already_friend = FriendsError::AlreadyFriend;
    assert_eq!(already_friend.message(), "User is already a friend");

    let not_friend = FriendsError::NotFriend;
    assert_eq!(not_friend.message(), "User is not a friend");
}

#[test]
fn test_pending_friend_request_structure() {
    let requester = "@alice:example.org".to_string();
    let room_id = "!friends:example.org".to_string();
    let timestamp: u64 = 1_700_000_000_000;

    let request = PendingFriendRequest {
        requester: requester.clone(),
        room_id: room_id.clone(),
        timestamp,
        display_name: Some("Alice".to_string()),
        avatar_url: Some("mxc://example.org/avatar".to_string()),
    };

    assert_eq!(request.requester, requester);
    assert_eq!(request.room_id, room_id);
    assert_eq!(request.display_name, Some("Alice".to_string()));
    assert_eq!(
        request.avatar_url,
        Some("mxc://example.org/avatar".to_string())
    );
}

#[test]
fn test_pending_friend_request_minimal() {
    let request = PendingFriendRequest {
        requester: "@bob:example.org".to_string(),
        room_id: "!friends:example.org".to_string(),
        timestamp: 1_700_000_000_000,
        display_name: None,
        avatar_url: None,
    };

    assert!(request.display_name.is_none());
    assert!(request.avatar_url.is_none());
}

#[test]
fn test_friends_space_cache() {
    let mut cache = FriendsSpaceCache::new();
    assert!(cache.cached_space_id().is_none());

    cache.set_space_id("!space:example.org".to_string());
    assert_eq!(
        cache.cached_space_id(),
        Some(&"!space:example.org".to_string())
    );

    cache.clear_cache();
    assert!(cache.cached_space_id().is_none());
}

#[test]
fn test_friends_space_name() {
    assert_eq!(friends_space_name("alice"), "alice's Friends");
}
