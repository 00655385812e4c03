//! Profile room tests: configuration defaults, alias construction, and the
//! classification of lookup failures.

use robrix_social::feed_room::{HistoryVisibilityKind, JoinRuleKind};
use robrix_social::profile::{is_not_found_error, profile_alias, profile_room_name,
    ProfileRoomConfig, ProfileRoomError};

#[test]
fn test_default_profile_room_config() {
    let config = ProfileRoomConfig::default();
    assert_eq!(config.alias_prefix, "profile_");
    assert_eq!(config.default_join_rule, JoinRuleKind::Public);
    assert_eq!(
        config.default_history_visibility,
        HistoryVisibilityKind::WorldReadable
    );
}

#[test]
fn test_profile_room_error_display() {
    let not_logged_in = ProfileRoomError::NotLoggedIn;
    assert_eq!(not_logged_in.message(), "Not logged in");

    let room_not_found = ProfileRoomError::RoomNotFound;
    assert_eq!(room_not_found.message(), "Room not found");

    let invalid_alias = ProfileRoomError::InvalidAlias;
    assert_eq!(invalid_alias.message(), "Invalid room alias");
}

#[test]
fn test_profile_room_error_debug() {
    let error = ProfileRoomError::NotLoggedIn;
    let debug_str = format!("{:?}", error);
    assert!(debug_str.contains("NotLoggedIn"));
}

#[test]
fn test_profile_room_already_exists_error() {
    let room_id = "!test:example.org".to_string();
    let error = ProfileRoomError::AlreadyExists(room_id);

    let error_str = error.message();
    assert!(error_str.contains("!test:example.org"));
    assert!(error_str.contains("already exists"));
}

#[test]
fn test_profile_alias() {
    assert_eq!(
        profile_alias("profile_", "alice", "example.org"),
        "#profile_alice:example.org"
    );
}

#[test]
fn test_profile_room_name() {
    assert_eq!(profile_room_name("alice"), "alice's Profile");
}

#[test]
fn test_is_not_found_error() {
    assert!(is_not_found_error("room not found"));
    assert!(is_not_found_error("error: M_NOT_FOUND reported"));
    assert!(!is_not_found_error("connection refused"));
    assert!(!is_not_found_error(""));
}
