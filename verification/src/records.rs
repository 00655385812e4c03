//! The structured record payloads this crate interprets or produces.
//!
//! These mirror the wire-level shapes of the protocol layer as plain value
//! types: the event/gathering room state, the profile room state, the link
//! preview and caption payloads embedded in posts. Media and room
//! identifiers are carried as strings; decoding from and encoding to the
//! transport, including the rejection of unknown fields, happens outside
//! the library.

use vstd::prelude::*;

verus! {

/// Caption data for media posts.
#[derive(Clone, Debug)]
pub struct Caption {
    /// Caption text.
    pub text: String,
    /// Formatted caption (HTML).
    pub formatted_text: Option<String>,
}

/// Rich link preview data embedded in message content.
#[derive(Clone, Debug)]
pub struct LinkPreview {
    /// Original URL.
    pub url: String,
    /// Page title.
    pub title: Option<String>,
    /// Page description.
    pub description: Option<String>,
    /// Preview image URI.
    pub image: Option<String>,
    /// Site name.
    pub site_name: Option<String>,
}

/// Visibility of an event/gathering.
#[derive(Clone, Copy, Debug, PartialEq, Eq, Structural)]
pub enum EventVisibility {
    /// Anyone may join the event room.
    Public,
    /// The event room is invite-only.
    Private,
}

/// Where an event takes place.
#[derive(Clone, Debug)]
pub struct EventLocation {
    /// Human-readable location name.
    pub name: String,
    /// Full address.
    pub address: Option<String>,
    /// Geo URI.
    pub geo: Option<String>,
}

/// Event/gathering details stored as room state.
#[derive(Clone, Debug)]
pub struct SocialEventEventContent {
    /// Event title.
    pub title: String,
    /// Event description.
    pub description: Option<String>,
    /// Start time (epoch milliseconds).
    pub start_time: u64,
    /// End time (epoch milliseconds).
    pub end_time: Option<u64>,
    /// Event location.
    pub location: Option<EventLocation>,
    /// Cover image URI.
    pub cover_image: Option<String>,
    /// Visibility level.
    pub visibility: EventVisibility,
    /// RSVP deadline (epoch milliseconds).
    pub rsvp_deadline: Option<u64>,
}

/// Custom profile data stored as room state in a user's profile room.
#[derive(Clone, Debug)]
pub struct SocialProfileEventContent {
    /// User's biography/about text.
    pub bio: Option<String>,
    /// User's location (city, country, and so on).
    pub location: Option<String>,
    /// User's website URL.
    pub website: Option<String>,
    /// Cover/banner image URI.
    pub cover_image: Option<String>,
    /// Additional custom fields, carried as raw JSON text.
    pub custom: Option<String>,
}

} // verus!
