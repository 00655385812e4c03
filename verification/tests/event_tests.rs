//! Event room and RSVP tests: roles, power levels, and the anti-spoofing
//! validator.

use robrix_social::events::{event_room_power_levels, EventRole, EventRoomError};
use robrix_social::rsvp::{count_rsvps, default_guests, validate_ownership, validate_rsvp_event,
    RsvpCounts, RsvpError, RsvpStatus, RsvpValidation, ValidatedRsvp};

#[test]
fn test_event_role_power_levels() {
    assert_eq!(EventRole::Creator.power_level_i64(), 100);
    assert_eq!(EventRole::CoHost.power_level_i64(), 50);
    assert_eq!(EventRole::Guest.power_level_i64(), 0);
}

#[test]
fn test_event_role_equality() {
    assert_eq!(EventRole::Creator, EventRole::Creator);
    assert_eq!(EventRole::CoHost, EventRole::CoHost);
    assert_eq!(EventRole::Guest, EventRole::Guest);
    assert_ne!(EventRole::Creator, EventRole::Guest);
}

#[test]
fn test_event_room_power_levels_config() {
    // Guests CAN invite
    let config_invite = event_room_power_levels(true);
    assert_eq!(config_invite.invite, Some(0)); // Guest level

    // Guests CANNOT invite
    let config_no_invite = event_room_power_levels(false);
    assert_eq!(config_no_invite.invite, Some(50)); // CoHost level

    // Common settings
    assert_eq!(config_invite.state_default, Some(50)); // CoHost
    assert_eq!(config_invite.events_default, Some(0)); // Guest
    assert_eq!(config_invite.kick, Some(50)); // CoHost
    assert_eq!(config_invite.ban, Some(50)); // CoHost
    assert_eq!(config_invite.redact, Some(50)); // CoHost
}

#[test]
fn test_event_room_error_display() {
    let not_logged_in = EventRoomError::NotLoggedIn;
    assert_eq!(not_logged_in.message(), "Not logged in");

    let room_not_found = EventRoomError::RoomNotFound;
    assert_eq!(room_not_found.message(), "Room not found");
}

#[test]
fn test_rsvp_error_display() {
    let not_logged_in = RsvpError::NotLoggedIn;
    assert_eq!(not_logged_in.message(), "Not logged in");

    let room_not_found = RsvpError::RoomNotFound;
    assert_eq!(room_not_found.message(), "Room not found");
}

#[test]
fn test_rsvp_validation_variants() {
    // Valid case
    let valid = RsvpValidation::Valid;
    assert!(matches!(valid, RsvpValidation::Valid));

    // Sender mismatch case
    let claimed = "@claimed:example.org".to_string();
    let actual = "@actual:example.org".to_string();
    let mismatch = RsvpValidation::SenderMismatch {
        claimed: claimed.clone(),
        actual: actual.clone(),
    };

    match mismatch {
        RsvpValidation::SenderMismatch {
            claimed: c,
            actual: a,
        } => {
            assert_eq!(c, claimed);
            assert_eq!(a, actual);
        }
        _ => panic!("Expected SenderMismatch variant"),
    }

    // Invalid content case
    let invalid = RsvpValidation::InvalidContent("bad state_key".to_string());
    match invalid {
        RsvpValidation::InvalidContent(msg) => {
            assert!(msg.contains("bad state_key"));
        }
        _ => panic!("Expected InvalidContent variant"),
    }
}

/// A record whose claimed owner differs from its author is a spoofing
/// attempt and must be reported as a sender mismatch, never silently fixed.
#[test]
fn test_rsvp_sender_validation() {
    let claimed = "@victim:example.org";
    let actual = "@attacker:example.org";

    let result = validate_ownership(claimed, actual);

    assert!(matches!(result, RsvpValidation::SenderMismatch { .. }));

    if let RsvpValidation::SenderMismatch {
        claimed: c,
        actual: a,
    } = result
    {
        assert_eq!(c, claimed);
        assert_eq!(a, actual);
        assert_ne!(c, a, "Mismatched sender should be detected");
    }
}

/// When the claimed owner equals the author, the record is valid.
#[test]
fn test_valid_rsvp_passes() {
    let user = "@user:example.org";

    let result = validate_ownership(user, user);
    assert!(
        matches!(result, RsvpValidation::Valid),
        "Valid RSVP should pass validation"
    );

    assert!(
        user.starts_with('@'),
        "RSVP state_key must be a valid user ID"
    );
    assert!(
        user.contains(':'),
        "RSVP state_key must contain server name"
    );
}

/// Non-identity strings in the claimed-owner key are rejected as invalid
/// content, whoever the author is.
#[test]
fn test_rsvp_invalid_state_key() {
    let invalid_state_keys = vec![
        "not_a_user_id",
        "missing_at_sign:server.org",
        "@missing_server",
        "",
    ];

    for state_key in invalid_state_keys {
        let parse_result = ruma::OwnedUserId::try_from(state_key.to_string());
        assert!(
            parse_result.is_err(),
            "Invalid state_key '{}' should fail to parse as user ID",
            state_key
        );

        let result = validate_ownership(state_key, "@someone:example.org");
        assert!(
            matches!(result, RsvpValidation::InvalidContent(_)),
            "Invalid state_key '{}' should be rejected as invalid content",
            state_key
        );
    }
}

/// The event-level check applies only to RSVP records; other state events
/// carry no claimed owner and pass.
#[test]
fn test_validate_rsvp_event() {
    let result = validate_rsvp_event(
        "org.social.rsvp",
        "@alice:example.org",
        "@alice:example.org",
    );
    assert!(matches!(result, RsvpValidation::Valid));

    let result = validate_rsvp_event(
        "org.social.rsvp",
        "@alice:example.org",
        "@mallory:example.org",
    );
    assert!(matches!(result, RsvpValidation::SenderMismatch { .. }));

    let result = validate_rsvp_event("org.social.rsvp", "not_a_user_id", "@alice:example.org");
    match result {
        RsvpValidation::InvalidContent(msg) => {
            assert_eq!(msg, "Invalid state_key: not_a_user_id");
        }
        other => panic!("expected InvalidContent, got {:?}", other),
    }

    let result = validate_rsvp_event("m.room.topic", "whatever", "@alice:example.org");
    assert!(matches!(result, RsvpValidation::Valid));
}

#[test]
fn test_validated_rsvp_structure() {
    let user = "@alice:example.org".to_string();

    let rsvp = ValidatedRsvp {
        user_id: user.clone(),
        status: RsvpStatus::Going,
        guests: 2,
        note: Some("Looking forward to it!".to_string()),
    };

    assert_eq!(rsvp.user_id, user);
    assert_eq!(rsvp.status, RsvpStatus::Going);
    assert_eq!(rsvp.guests, 2);
    assert_eq!(rsvp.note, Some("Looking forward to it!".to_string()));
}

#[test]
fn test_rsvp_counts() {
    let counts = RsvpCounts::default();
    assert_eq!(counts.going, 0);
    assert_eq!(counts.interested, 0);
    assert_eq!(counts.not_going, 0);
    assert_eq!(counts.total_guests, 0);
}

#[test]
fn test_count_rsvps() {
    let rsvps = vec![
        ValidatedRsvp {
            user_id: "@a:example.org".to_string(),
            status: RsvpStatus::Going,
            guests: 2,
            note: None,
        },
        ValidatedRsvp {
            user_id: "@b:example.org".to_string(),
            status: RsvpStatus::Going,
            guests: 1,
            note: None,
        },
        ValidatedRsvp {
            user_id: "@c:example.org".to_string(),
            status: RsvpStatus::Interested,
            guests: 1,
            note: None,
        },
        ValidatedRsvp {
            user_id: "@d:example.org".to_string(),
            status: RsvpStatus::NotGoing,
            guests: 1,
            note: None,
        },
    ];
    let counts = count_rsvps(&rsvps);
    assert_eq!(counts.going, 2);
    assert_eq!(counts.interested, 1);
    assert_eq!(counts.not_going, 1);
    assert_eq!(counts.total_guests, 3);
}

#[test]
fn test_rsvp_status_variants() {
    assert_eq!(RsvpStatus::Going, RsvpStatus::Going);
    assert_eq!(RsvpStatus::Interested, RsvpStatus::Interested);
    assert_eq!(RsvpStatus::NotGoing, RsvpStatus::NotGoing);
    assert_ne!(RsvpStatus::Going, RsvpStatus::NotGoing);
}

#[test]
fn test_default_guests() {
    assert_eq!(default_guests(), 1);
}
