//! Friend network state.
//!
//! Friend requests travel as knocks on a user's friends-only feed room, and
//! the friend list itself is a private space holding the friends' feed
//! rooms. This module holds the relationship states, the pending-request
//! record, the caller-owned cache of the friends space identifier, and the
//! naming rule by which that space is found. Sending knocks and invitations
//! happens outside the library.

use vstd::prelude::*;


verus! {

/// Friend request state between two users.
#[derive(Clone, Debug, PartialEq, Eq, Structural)]
pub enum FriendRequestState {
    /// No relationship established.
    NotConnected,
    /// Pending outgoing request (we knocked on their feed).
    PendingOutgoing,
    /// Pending incoming request (they knocked on our feed).
    PendingIncoming,
    /// Accepted: mutual friends, both with access to each other's feeds.
    Friends,
    /// The relationship is blocked.
    Blocked,
}

/// A pending friend request.
#[derive(Clone, Debug)]
pub struct PendingFriendRequest {
    /// The user who sent the request.
    pub requester: String,
    /// The room they knocked on (our friends-only feed).
    pub room_id: String,
    /// When the request was sent (epoch milliseconds).
    pub timestamp: u64,
    /// Requester's display name, if available.
    pub display_name: Option<String>,
    /// Requester's avatar URL, if available.
    pub avatar_url: Option<String>,
}

/// The display name a user's friends space carries, by which it is also
/// rediscovered.
pub fn friends_space_name(localpart: &str) -> (r: String)
    ensures
        r@ == localpart@ + "'s Friends"@,
{
    let mut r = String::from_str(localpart);
    r.append("'s Friends");
    r
}

/// Caller-owned cache of the lazily discovered friends space identifier,
/// with explicit invalidation.
#[derive(Clone, Debug)]
pub struct FriendsSpaceCache {
    space_id: Option<String>,
}

impl FriendsSpaceCache {
    /// The cached identifier, if any.
    pub closed spec fn spec_space_id(&self) -> Option<Seq<char>> {
        match self.space_id {
            Some(id) => Some(id@),
            None => None,
        }
    }

    /// Create an empty cache, forcing discovery on first use.
    pub fn new() -> (r: FriendsSpaceCache)
        ensures
            r.spec_space_id() is None,
    {
        FriendsSpaceCache { space_id: None }
    }

    /// Get the cached space identifier without triggering discovery.
    pub fn cached_space_id(&self) -> (r: Option<&String>)
        ensures
            r matches Some(id) ==> self.spec_space_id() == Some(id@),
            r is None <==> self.spec_space_id() is None,
    {
        self.space_id.as_ref()
    }

    /// Record a discovered or newly created space identifier.
    pub fn set_space_id(&mut self, space_id: String)
        ensures
            final(self).spec_space_id() == Some(space_id@),
    {
        self.space_id = Some(space_id);
    }

    /// Clear the cached identifier, forcing rediscovery on next access.
    pub fn clear_cache(&mut self)
        ensures
            final(self).spec_space_id() is None,
    {
        self.space_id = None;
    }
}

/// Errors that can occur when handling friend requests.
#[derive(Clone, Debug)]
pub enum FriendRequestError {
    /// The specified room was not found.
    RoomNotFound,
    /// User is not logged in to the protocol client.
    NotLoggedIn,
    /// A friend request is already pending.
    RequestAlreadyPending,
    /// The users are already friends.
    AlreadyFriends,
    /// The user is blocked.
    UserBlocked,
    /// Cannot send a request to oneself.
    CannotFriendSelf,
    /// An error reported by the protocol layer, passed through unchanged.
    MatrixError(String),
}

impl FriendRequestError {
    /// A human-readable description of the error.
    pub fn message(&self) -> (r: String)
        ensures
            self is RoomNotFound ==> r@ == "Room not found"@,
            self is NotLoggedIn ==> r@ == "Not logged in"@,
            self is RequestAlreadyPending ==> r@ == "Friend request already pending"@,
            self is AlreadyFriends ==> r@ == "Already friends"@,
            self is UserBlocked ==> r@ == "User is blocked"@,
            self is CannotFriendSelf ==> r@ == "Cannot send friend request to yourself"@,
            self matches FriendRequestError::MatrixError(s) ==> r@ == "Matrix error: "@ + s@,
    {
        match self {
            FriendRequestError::RoomNotFound => String::from_str("Room not found"),
            FriendRequestError::NotLoggedIn => String::from_str("Not logged in"),
            FriendRequestError::RequestAlreadyPending => {
                String::from_str("Friend request already pending")
            },
            FriendRequestError::AlreadyFriends => String::from_str("Already friends"),
            FriendRequestError::UserBlocked => String::from_str("User is blocked"),
            FriendRequestError::CannotFriendSelf => {
                String::from_str("Cannot send friend request to yourself")
            },
            FriendRequestError::MatrixError(s) => {
                let mut m = String::from_str("Matrix error: ");
                m.append(s.as_str());
                m
            },
        }
    }
}

/// Errors that can occur when working with the friends space.
#[derive(Clone, Debug)]
pub enum FriendsError {
    /// User is not logged in to the protocol client.
    NotLoggedIn,
    /// The friends space was not found.
    SpaceNotFound,
    /// The friend's feed room was not found.
    FeedRoomNotFound,
    /// The user is already a friend.
    AlreadyFriend,
    /// The user is not a friend.
    NotFriend,
    /// An error reported by the protocol layer, passed through unchanged.
    MatrixError(String),
}

impl FriendsError {
    /// A human-readable description of the error.
    pub fn message(&self) -> (r: String)
        ensures
            self is NotLoggedIn ==> r@ == "Not logged in"@,
            self is SpaceNotFound ==> r@ == "Friends space not found"@,
            self is FeedRoomNotFound ==> r@ == "Friend's feed room not found"@,
            self is AlreadyFriend ==> r@ == "User is already a friend"@,
            self is NotFriend ==> r@ == "User is not a friend"@,
            self matches FriendsError::MatrixError(s) ==> r@ == "Matrix error: "@ + s@,
    {
        match self {
            FriendsError::NotLoggedIn => String::from_str("Not logged in"),
            FriendsError::SpaceNotFound => String::from_str("Friends space not found"),
            FriendsError::FeedRoomNotFound => String::from_str("Friend's feed room not found"),
            FriendsError::AlreadyFriend => String::from_str("User is already a friend"),
            FriendsError::NotFriend => String::from_str("User is not a friend"),
            FriendsError::MatrixError(s) => {
                let mut m = String::from_str("Matrix error: ");
                m.append(s.as_str());
                m
            },
        }
    }
}

} // verus!
