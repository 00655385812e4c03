//! Profile room configuration and discovery rules.
//!
//! Each user has a dedicated profile room storing extended profile state.
//! This module decides, as pure functions, how that room is named and
//! configured, the canonical alias it is found under, and how a lookup
//! failure reported by the protocol layer is classified. Creating and
//! resolving rooms happens outside the library.

use vstd::prelude::*;

use crate::feed_room::HistoryVisibilityKind;
use crate::feed_room::JoinRuleKind;
use crate::text::contains_substr;
use crate::text::spec_contains_substr;

verus! {

/// Profile room configuration.
#[derive(Clone, Debug)]
pub struct ProfileRoomConfig {
    /// Alias prefix; the alias is `#{prefix}{localpart}:{server}`.
    pub alias_prefix: String,
    /// Default join rule for profile rooms.
    pub default_join_rule: JoinRuleKind,
    /// Default history visibility.
    pub default_history_visibility: HistoryVisibilityKind,
}

impl Default for ProfileRoomConfig {
    /// Profile rooms default to a `profile_` alias prefix, open joining and
    /// world-readable history.
    fn default() -> (r: ProfileRoomConfig)
        ensures
            r.alias_prefix@ == "profile_"@,
            r.default_join_rule is Public,
            r.default_history_visibility is WorldReadable,
    {
        ProfileRoomConfig {
            alias_prefix: String::from_str("profile_"),
            default_join_rule: JoinRuleKind::Public,
            default_history_visibility: HistoryVisibilityKind::WorldReadable,
        }
    }
}

/// The canonical alias of a user's profile room:
/// `#{prefix}{localpart}:{server}`. Whether the result is a legal alias is
/// for the protocol layer to decide when it resolves it.
pub fn profile_alias(prefix: &str, localpart: &str, server: &str) -> (r: String)
    ensures
        r@ == "#"@ + prefix@ + localpart@ + ":"@ + server@,
{
    let mut r = String::from_str("#");
    r.append(prefix);
    r.append(localpart);
    r.append(":");
    r.append(server);
    r
}

/// The display name a user's profile room carries.
pub fn profile_room_name(localpart: &str) -> (r: String)
    ensures
        r@ == localpart@ + "'s Profile"@,
{
    let mut r = String::from_str(localpart);
    r.append("'s Profile");
    r
}

/// Classify an alias-resolution failure: a message naming a missing room
/// means the profile room simply does not exist, anything else is a real
/// error to propagate.
pub fn is_not_found_error(message: &str) -> (r: bool)
    ensures
        r == (spec_contains_substr(message@, "not found"@) || spec_contains_substr(
            message@,
            "M_NOT_FOUND"@,
        )),
{
    contains_substr(message, "not found") || contains_substr(message, "M_NOT_FOUND")
}

/// Errors that can occur when working with profile rooms.
#[derive(Clone, Debug)]
pub enum ProfileRoomError {
    /// User is not logged in to the protocol client.
    NotLoggedIn,
    /// A profile room already exists for this user.
    AlreadyExists(String),
    /// The requested room was not found.
    RoomNotFound,
    /// The constructed room alias was invalid.
    InvalidAlias,
    /// An error reported by the protocol layer, passed through unchanged.
    MatrixError(String),
}

impl ProfileRoomError {
    /// A human-readable description of the error.
    pub fn message(&self) -> (r: String)
        ensures
            self is NotLoggedIn ==> r@ == "Not logged in"@,
            self matches ProfileRoomError::AlreadyExists(id) ==> r@
                == "Profile room already exists: "@ + id@,
            self is RoomNotFound ==> r@ == "Room not found"@,
            self is InvalidAlias ==> r@ == "Invalid room alias"@,
            self matches ProfileRoomError::MatrixError(s) ==> r@ == "Matrix error: "@ + s@,
    {
        match self {
            ProfileRoomError::NotLoggedIn => String::from_str("Not logged in"),
            ProfileRoomError::AlreadyExists(id) => {
                let mut m = String::from_str("Profile room already exists: ");
                m.append(id.as_str());
                m
            },
            ProfileRoomError::RoomNotFound => String::from_str("Room not found"),
            ProfileRoomError::InvalidAlias => String::from_str("Invalid room alias"),
            ProfileRoomError::MatrixError(s) => {
                let mut m = String::from_str("Matrix error: ");
                m.append(s.as_str());
                m
            },
        }
    }
}

} // verus!
