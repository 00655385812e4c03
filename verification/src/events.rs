//! Event room roles and power-level policy.
//!
//! An event room distinguishes three roles. This module decides, as pure
//! functions, the power level of each role, the power-level changes an
//! event room is configured with, and the join rule its visibility calls
//! for. Applying them to a room happens outside the library.

use vstd::prelude::*;

use crate::feed_room::JoinRuleKind;
use crate::records::EventVisibility;

verus! {

/// Power level roles for events.
#[derive(Clone, Copy, Debug, PartialEq, Eq, Structural)]
pub enum EventRole {
    /// Full control over the event room.
    Creator,
    /// Can edit the event and moderate.
    CoHost,
    /// Can chat, RSVP, and potentially invite.
    Guest,
}

impl EventRole {
    /// Get the power level for this role.
    pub fn power_level_i64(&self) -> (r: i64)
        ensures
            self is Creator ==> r == 100,
            self is CoHost ==> r == 50,
            self is Guest ==> r == 0,
    {
        match self {
            EventRole::Creator => 100,
            EventRole::CoHost => 50,
            EventRole::Guest => 0,
        }
    }
}

/// Power-level changes to apply to an event room. A field left `None` keeps
/// the room's existing level.
#[derive(Clone, Copy, Debug, PartialEq, Eq, Structural)]
pub struct PowerLevelChanges {
    /// Level needed to send state events.
    pub state_default: Option<i64>,
    /// Level needed to send ordinary events.
    pub events_default: Option<i64>,
    /// Level needed to invite users.
    pub invite: Option<i64>,
    /// Level needed to kick users.
    pub kick: Option<i64>,
    /// Level needed to ban users.
    pub ban: Option<i64>,
    /// Level needed to redact events.
    pub redact: Option<i64>,
}

/// Power level configuration for event rooms: state changes and moderation
/// need a co-host, chat is open to all, and invitations are open to guests
/// exactly when the event settings say so.
pub fn event_room_power_levels(guests_can_invite: bool) -> (r: PowerLevelChanges)
    ensures
        r.state_default == Some(50i64),
        r.events_default == Some(0i64),
        guests_can_invite ==> r.invite == Some(0i64),
        !guests_can_invite ==> r.invite == Some(50i64),
        r.kick == Some(50i64),
        r.ban == Some(50i64),
        r.redact == Some(50i64),
{
    let invite = if guests_can_invite {
        Some(EventRole::Guest.power_level_i64())
    } else {
        Some(EventRole::CoHost.power_level_i64())
    };
    PowerLevelChanges {
        state_default: Some(EventRole::CoHost.power_level_i64()),
        events_default: Some(EventRole::Guest.power_level_i64()),
        invite,
        kick: Some(EventRole::CoHost.power_level_i64()),
        ban: Some(EventRole::CoHost.power_level_i64()),
        redact: Some(EventRole::CoHost.power_level_i64()),
    }
}

/// The join rule an event's visibility calls for: public events are open,
/// private ones are invite-only.
pub fn event_join_rule(visibility: EventVisibility) -> (r: JoinRuleKind)
    ensures
        visibility is Public <==> r is Public,
{
    match visibility {
        EventVisibility::Public => JoinRuleKind::Public,
        EventVisibility::Private => JoinRuleKind::Invite,
    }
}

/// Errors that can occur when working with event rooms.
#[derive(Clone, Debug)]
pub enum EventRoomError {
    /// User is not logged in to the protocol client.
    NotLoggedIn,
    /// The requested room was not found.
    RoomNotFound,
    /// An error reported by the protocol layer, passed through unchanged.
    MatrixError(String),
}

impl EventRoomError {
    /// A human-readable description of the error.
    pub fn message(&self) -> (r: String)
        ensures
            self is NotLoggedIn ==> r@ == "Not logged in"@,
            self is RoomNotFound ==> r@ == "Room not found"@,
            self matches EventRoomError::MatrixError(s) ==> r@ == "Matrix error: "@ + s@,
    {
        match self {
            EventRoomError::NotLoggedIn => String::from_str("Not logged in"),
            EventRoomError::RoomNotFound => String::from_str("Room not found"),
            EventRoomError::MatrixError(s) => {
                let mut m = String::from_str("Matrix error: ");
                m.append(s.as_str());
                m
            },
        }
    }
}

} // verus!
