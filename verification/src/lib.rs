//! Core decision and aggregation logic for a Matrix-based social layer.
//!
//! This crate holds the trust-and-privacy enforcement rules of the social
//! features: the privacy lattice and sharing guard, the RSVP authenticity
//! validator, the reaction aggregator, and the feed aggregation and
//! filtering pipeline. All state is held in plain value types; network
//! transport and rendering stay outside, behind the interfaces these
//! functions consume and produce.

pub mod events;
pub mod feed_filter;
pub mod feed_room;
pub mod friends;
pub mod newsfeed;
pub mod post;
pub mod privacy;
pub mod profile;
pub mod reactions;
pub mod records;
pub mod rsvp;
pub mod text;

pub use feed_filter::{ContentFilter, FeedFilterSettings};
pub use feed_room::{FeedPrivacy, FeedRoomError, UserFeeds};
pub use newsfeed::{FeedAggregator, FeedError, FeedItem, FeedSortOrder};
pub use post::{FeedPost, Post, PostContent, PostError, PostMetadata};
pub use privacy::{PrivacyLevel, ShareValidation, SharingGuard};
pub use profile::{ProfileRoomConfig, ProfileRoomError};
pub use reactions::{reactions_for_display, ReactionDisplay, ReactionSummary};
