//! Feed room configuration.
//!
//! Each user maintains up to three feed rooms, one per privacy tier. This
//! module decides, as pure functions, how a feed room of a given tier is
//! configured: its join rule, its history visibility, its display name and
//! alias suffix. Creating and joining the rooms happens outside the library.

use vstd::prelude::*;

verus! {

/// How users may join a room.
#[derive(Clone, Copy, Debug, PartialEq, Eq, Structural)]
pub enum JoinRuleKind {
    /// Anyone can join.
    Public,
    /// Members must be invited.
    Invite,
}

/// Who can read a room's history.
#[derive(Clone, Copy, Debug, PartialEq, Eq, Structural)]
pub enum HistoryVisibilityKind {
    /// Anyone can read, member or not.
    WorldReadable,
    /// Members can read history from before they joined.
    Shared,
    /// Members can read only history from after they joined.
    Joined,
}

/// Feed privacy level: who can read posts in a feed room and how users can
/// join it.
#[derive(Clone, Copy, Debug, PartialEq, Eq, PartialOrd, Ord, Structural, Hash)]
pub enum FeedPrivacy {
    /// Anyone can read; the room is publicly listed.
    Public,
    /// Only members of the user's friends space can join.
    Friends,
    /// Invite-only for close friends.
    CloseFriends,
}

impl Default for FeedPrivacy {
    /// The default feed tier is the public one.
    fn default() -> (r: FeedPrivacy)
        ensures
            r is Public,
    {
        FeedPrivacy::Public
    }
}

impl FeedPrivacy {
    /// Get the join rule for this privacy level. Friends feeds fall back to
    /// invite-only, as does the close-friends tier.
    pub fn join_rule(&self) -> (r: JoinRuleKind)
        ensures
            self is Public <==> r is Public,
    {
        match self {
            FeedPrivacy::Public => JoinRuleKind::Public,
            FeedPrivacy::Friends => JoinRuleKind::Invite,
            FeedPrivacy::CloseFriends => JoinRuleKind::Invite,
        }
    }

    /// Get the history visibility for this privacy level: public feeds are
    /// world-readable, the others show history to members only.
    pub fn history_visibility(&self) -> (r: HistoryVisibilityKind)
        ensures
            self is Public <==> r is WorldReadable,
            !(self is Public) <==> r is Shared,
    {
        match self {
            FeedPrivacy::Public => HistoryVisibilityKind::WorldReadable,
            FeedPrivacy::Friends => HistoryVisibilityKind::Shared,
            FeedPrivacy::CloseFriends => HistoryVisibilityKind::Shared,
        }
    }

    /// Get the feed type name for display and room naming.
    pub fn feed_name(&self) -> (r: &'static str)
        ensures
            r@ == spec_feed_name(*self),
    {
        match self {
            FeedPrivacy::Public => "Public Feed",
            FeedPrivacy::Friends => "Friends Feed",
            FeedPrivacy::CloseFriends => "Close Friends Feed",
        }
    }

    /// Get the alias suffix for this feed type.
    pub fn alias_suffix(&self) -> (r: &'static str)
        ensures
            self is Public ==> r@ == "_public"@,
            self is Friends ==> r@ == "_friends"@,
            self is CloseFriends ==> r@ == "_close"@,
    {
        match self {
            FeedPrivacy::Public => "_public",
            FeedPrivacy::Friends => "_friends",
            FeedPrivacy::CloseFriends => "_close",
        }
    }
}

/// Display name of a feed tier, at the specification level.
pub open spec fn spec_feed_name(p: FeedPrivacy) -> Seq<char> {
    match p {
        FeedPrivacy::Public => "Public Feed"@,
        FeedPrivacy::Friends => "Friends Feed"@,
        FeedPrivacy::CloseFriends => "Close Friends Feed"@,
    }
}

/// The display name a user's feed room of a given tier carries.
pub fn feed_room_name(localpart: &str, privacy: FeedPrivacy) -> (r: String)
    ensures
        r@ == localpart@ + "'s "@ + spec_feed_name(privacy),
{
    let mut r = String::from_str(localpart);
    r.append("'s ");
    r.append(privacy.feed_name());
    r
}

/// Collection of a user's feed rooms, one identifier per privacy tier.
#[derive(Clone, Debug, Default)]
pub struct UserFeeds {
    /// Public feed room identifier, if it exists.
    pub public: Option<String>,
    /// Friends-only feed room identifier, if it exists.
    pub friends: Option<String>,
    /// Close friends feed room identifier, if it exists.
    pub close_friends: Option<String>,
}

/// The feed room identifiers a [`UserFeeds`] holds, public tier first.
pub open spec fn spec_all_feeds(u: UserFeeds) -> Seq<Seq<char>> {
    (match u.public {
        Some(p) => seq![p@],
        None => Seq::empty(),
    }) + (match u.friends {
        Some(f) => seq![f@],
        None => Seq::empty(),
    }) + (match u.close_friends {
        Some(c) => seq![c@],
        None => Seq::empty(),
    })
}

impl UserFeeds {
    /// Create an empty collection, with no feed room of any tier.
    pub fn new() -> (r: UserFeeds)
        ensures
            r.public is None,
            r.friends is None,
            r.close_friends is None,
    {
        UserFeeds { public: None, friends: None, close_friends: None }
    }

    /// Check if any feed room exists.
    pub fn has_any(&self) -> (r: bool)
        ensures
            r == (self.public is Some || self.friends is Some || self.close_friends is Some),
    {
        self.public.is_some() || self.friends.is_some() || self.close_friends.is_some()
    }

    /// The feed room identifier of a tier, at the specification level.
    pub open spec fn spec_get(&self, privacy: FeedPrivacy) -> Option<Seq<char>> {
        let field = match privacy {
            FeedPrivacy::Public => self.public,
            FeedPrivacy::Friends => self.friends,
            FeedPrivacy::CloseFriends => self.close_friends,
        };
        match field {
            Some(id) => Some(id@),
            None => None,
        }
    }

    /// Get the feed room identifier for a given privacy level.
    pub fn get(&self, privacy: FeedPrivacy) -> (r: Option<&String>)
        ensures
            r matches Some(id) ==> self.spec_get(privacy) == Some(id@),
            r is None <==> self.spec_get(privacy) is None,
    {
        match privacy {
            FeedPrivacy::Public => self.public.as_ref(),
            FeedPrivacy::Friends => self.friends.as_ref(),
            FeedPrivacy::CloseFriends => self.close_friends.as_ref(),
        }
    }

    /// Get all existing feed room identifiers, public tier first.
    pub fn all(&self) -> (r: Vec<String>)
        ensures
            r.deep_view() == spec_all_feeds(*self),
    {
        let mut r: Vec<String> = Vec::new();
        if let Some(p) = &self.public {
            r.push(p.clone());
        }
        if let Some(f) = &self.friends {
            r.push(f.clone());
        }
        if let Some(c) = &self.close_friends {
            r.push(c.clone());
        }
        proof {
            assert(r.deep_view() =~= spec_all_feeds(*self));
        }
        r
    }
}

/// Errors that can occur when working with feed rooms.
#[derive(Clone, Debug)]
pub enum FeedRoomError {
    /// User is not logged in to the protocol client.
    NotLoggedIn,
    /// A feed room with this privacy level already exists.
    AlreadyExists(FeedPrivacy),
    /// The requested feed room was not found.
    FeedNotFound,
    /// User does not have permission to access this feed.
    AccessDenied,
    /// Invalid feed room configuration.
    InvalidConfiguration(String),
    /// An error reported by the protocol layer, passed through unchanged.
    MatrixError(String),
}

impl FeedRoomError {
    /// A human-readable description of the error.
    pub fn message(&self) -> (r: String)
        ensures
            self is NotLoggedIn ==> r@ == "Not logged in"@,
            self matches FeedRoomError::AlreadyExists(p) ==> r@
                == "Feed room already exists for privacy level: "@ + spec_feed_name(*p),
            self is FeedNotFound ==> r@ == "Feed room not found"@,
            self is AccessDenied ==> r@ == "Access denied to feed room"@,
            self matches FeedRoomError::InvalidConfiguration(s) ==> r@
                == "Invalid feed room configuration: "@ + s@,
            self matches FeedRoomError::MatrixError(s) ==> r@ == "Matrix error: "@ + s@,
    {
        match self {
            FeedRoomError::NotLoggedIn => String::from_str("Not logged in"),
            FeedRoomError::AlreadyExists(p) => {
                let mut m = String::from_str("Feed room already exists for privacy level: ");
                m.append(p.feed_name());
                m
            },
            FeedRoomError::FeedNotFound => String::from_str("Feed room not found"),
            FeedRoomError::AccessDenied => String::from_str("Access denied to feed room"),
            FeedRoomError::InvalidConfiguration(s) => {
                let mut m = String::from_str("Invalid feed room configuration: ");
                m.append(s.as_str());
                m
            },
            FeedRoomError::MatrixError(s) => {
                let mut m = String::from_str("Matrix error: ");
                m.append(s.as_str());
                m
            },
        }
    }
}

} // verus!
