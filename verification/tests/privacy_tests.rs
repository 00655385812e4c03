//! Privacy safeguard tests: privacy level ordering, the sharing guard's
//! rules, and the explanations it produces.

use robrix_social::privacy::{privacy_level_name, PrivacyLevel, ShareValidation, SharingGuard};

fn no_users() -> Vec<String> {
    Vec::new()
}

fn no_attachments() -> Vec<(String, PrivacyLevel)> {
    Vec::new()
}

#[test]
fn test_privacy_level_ordering() {
    assert!(PrivacyLevel::Public < PrivacyLevel::Friends);
    assert!(PrivacyLevel::Friends < PrivacyLevel::CloseFriends);
    assert!(PrivacyLevel::CloseFriends < PrivacyLevel::Private);
}

#[test]
fn privacy_tests_test_privacy_level_ordering() {
    assert!(PrivacyLevel::Public < PrivacyLevel::Friends);
    assert!(PrivacyLevel::Friends < PrivacyLevel::CloseFriends);
    assert!(PrivacyLevel::CloseFriends < PrivacyLevel::Private);

    // Transitive ordering
    assert!(PrivacyLevel::Public < PrivacyLevel::CloseFriends);
    assert!(PrivacyLevel::Public < PrivacyLevel::Private);
    assert!(PrivacyLevel::Friends < PrivacyLevel::Private);
}

#[test]
fn test_can_share_to_self() {
    assert!(PrivacyLevel::Public.can_share_to(PrivacyLevel::Public));
    assert!(PrivacyLevel::Friends.can_share_to(PrivacyLevel::Friends));
    assert!(PrivacyLevel::CloseFriends.can_share_to(PrivacyLevel::CloseFriends));
    assert!(PrivacyLevel::Private.can_share_to(PrivacyLevel::Private));
}

#[test]
fn test_public_can_share_anywhere() {
    assert!(PrivacyLevel::Public.can_share_to(PrivacyLevel::Public));
    assert!(PrivacyLevel::Public.can_share_to(PrivacyLevel::Friends));
    assert!(PrivacyLevel::Public.can_share_to(PrivacyLevel::CloseFriends));
    assert!(PrivacyLevel::Public.can_share_to(PrivacyLevel::Private));
}

#[test]
fn test_can_share_public_anywhere() {
    assert!(PrivacyLevel::Public.can_share_to(PrivacyLevel::Public));
    assert!(PrivacyLevel::Public.can_share_to(PrivacyLevel::Friends));
    assert!(PrivacyLevel::Public.can_share_to(PrivacyLevel::CloseFriends));
    assert!(PrivacyLevel::Public.can_share_to(PrivacyLevel::Private));
}

#[test]
fn test_cannot_share_to_less_restrictive() {
    assert!(!PrivacyLevel::Friends.can_share_to(PrivacyLevel::Public));
    assert!(!PrivacyLevel::CloseFriends.can_share_to(PrivacyLevel::Public));
    assert!(!PrivacyLevel::CloseFriends.can_share_to(PrivacyLevel::Friends));
    assert!(!PrivacyLevel::Private.can_share_to(PrivacyLevel::Public));
    assert!(!PrivacyLevel::Private.can_share_to(PrivacyLevel::Friends));
    assert!(!PrivacyLevel::Private.can_share_to(PrivacyLevel::CloseFriends));
}

#[test]
fn test_cannot_share_private_to_public() {
    assert!(!PrivacyLevel::Friends.can_share_to(PrivacyLevel::Public));
    assert!(!PrivacyLevel::CloseFriends.can_share_to(PrivacyLevel::Public));
    assert!(!PrivacyLevel::Private.can_share_to(PrivacyLevel::Public));
    assert!(!PrivacyLevel::CloseFriends.can_share_to(PrivacyLevel::Friends));
    assert!(!PrivacyLevel::Private.can_share_to(PrivacyLevel::Friends));
    assert!(!PrivacyLevel::Private.can_share_to(PrivacyLevel::CloseFriends));
}

/// Sharing friends-only content publicly is the one softened transition: it
/// asks for confirmation instead of blocking outright.
#[test]
fn mod_test_sharing_guard_blocks_leak() {
    let result = SharingGuard::validate_share(
        PrivacyLevel::Friends,
        PrivacyLevel::Public,
        &no_users(),
        &no_users(),
        &no_attachments(),
    );

    assert!(!result.is_allowed());
    assert!(matches!(result, ShareValidation::RequiresConfirmation { .. }));
}

#[test]
fn mod_test_sharing_guard_allows_valid() {
    let result = SharingGuard::validate_share(
        PrivacyLevel::Public,
        PrivacyLevel::Friends,
        &no_users(),
        &no_users(),
        &no_attachments(),
    );

    assert!(matches!(result, ShareValidation::Allowed));
}

/// The friends-to-public transition asks for confirmation; a harder leak
/// such as close-friends content offered publicly is blocked, naming both
/// levels.
#[test]
fn privacy_tests_test_sharing_guard_blocks_leak() {
    let result = SharingGuard::validate_share(
        PrivacyLevel::Friends,
        PrivacyLevel::Public,
        &no_users(),
        &no_users(),
        &no_attachments(),
    );
    assert!(matches!(result, ShareValidation::RequiresConfirmation { .. }));

    let result = SharingGuard::validate_share(
        PrivacyLevel::CloseFriends,
        PrivacyLevel::Public,
        &no_users(),
        &no_users(),
        &no_attachments(),
    );
    assert!(matches!(result, ShareValidation::BlockedPrivacyLeak { .. }));

    if let ShareValidation::BlockedPrivacyLeak {
        source_privacy,
        target_privacy,
    } = result
    {
        assert_eq!(source_privacy, PrivacyLevel::CloseFriends);
        assert_eq!(target_privacy, PrivacyLevel::Public);
    }
}

#[test]
fn test_can_share_to_same_level() {
    assert!(PrivacyLevel::Public.can_share_to(PrivacyLevel::Public));
    assert!(PrivacyLevel::Friends.can_share_to(PrivacyLevel::Friends));
    assert!(PrivacyLevel::CloseFriends.can_share_to(PrivacyLevel::CloseFriends));
    assert!(PrivacyLevel::Private.can_share_to(PrivacyLevel::Private));
}

#[test]
fn test_can_share_to_more_restrictive() {
    assert!(PrivacyLevel::Friends.can_share_to(PrivacyLevel::CloseFriends));
    assert!(PrivacyLevel::Friends.can_share_to(PrivacyLevel::Private));
    assert!(PrivacyLevel::CloseFriends.can_share_to(PrivacyLevel::Private));
}

#[test]
fn privacy_tests_test_sharing_guard_allows_valid() {
    // Public to Friends is allowed
    let result = SharingGuard::validate_share(
        PrivacyLevel::Public,
        PrivacyLevel::Friends,
        &no_users(),
        &no_users(),
        &no_attachments(),
    );
    assert!(matches!(result, ShareValidation::Allowed));

    // Friends to CloseFriends is allowed
    let result = SharingGuard::validate_share(
        PrivacyLevel::Friends,
        PrivacyLevel::CloseFriends,
        &no_users(),
        &no_users(),
        &no_attachments(),
    );
    assert!(matches!(result, ShareValidation::Allowed));

    // Same level is allowed
    let result = SharingGuard::validate_share(
        PrivacyLevel::Friends,
        PrivacyLevel::Friends,
        &no_users(),
        &no_users(),
        &no_attachments(),
    );
    assert!(matches!(result, ShareValidation::Allowed));
}

#[test]
fn test_sharing_guard_blocks_various_leaks() {
    // CloseFriends to Public
    let result = SharingGuard::validate_share(
        PrivacyLevel::CloseFriends,
        PrivacyLevel::Public,
        &no_users(),
        &no_users(),
        &no_attachments(),
    );
    assert!(matches!(result, ShareValidation::BlockedPrivacyLeak { .. }));

    // Private to Public
    let result = SharingGuard::validate_share(
        PrivacyLevel::Private,
        PrivacyLevel::Public,
        &no_users(),
        &no_users(),
        &no_attachments(),
    );
    assert!(matches!(result, ShareValidation::BlockedPrivacyLeak { .. }));

    // Private to Friends
    let result = SharingGuard::validate_share(
        PrivacyLevel::Private,
        PrivacyLevel::Friends,
        &no_users(),
        &no_users(),
        &no_attachments(),
    );
    assert!(matches!(result, ShareValidation::BlockedPrivacyLeak { .. }));
}

#[test]
fn test_sharing_guard_attachment_privacy() {
    let attachment_room = "!attachment:example.org".to_string();

    // Sharing public content with a friends-only attachment to public should fail
    let result = SharingGuard::validate_share(
        PrivacyLevel::Public,
        PrivacyLevel::Public,
        &no_users(),
        &no_users(),
        &vec![(attachment_room.clone(), PrivacyLevel::Friends)],
    );
    assert!(matches!(
        result,
        ShareValidation::AttachmentPrivacyMismatch { .. }
    ));

    // Sharing public content with a public attachment to public should succeed
    let result = SharingGuard::validate_share(
        PrivacyLevel::Public,
        PrivacyLevel::Public,
        &no_users(),
        &no_users(),
        &vec![(attachment_room, PrivacyLevel::Public)],
    );
    assert!(matches!(result, ShareValidation::Allowed));
}

/// A mismatched attachment is reported by its room, the first offending one
/// in input order.
#[test]
fn test_sharing_guard_attachment_names_room() {
    let result = SharingGuard::validate_share(
        PrivacyLevel::Public,
        PrivacyLevel::Friends,
        &no_users(),
        &no_users(),
        &vec![
            ("!ok:example.org".to_string(), PrivacyLevel::Public),
            ("!bad:example.org".to_string(), PrivacyLevel::Private),
            ("!later:example.org".to_string(), PrivacyLevel::Private),
        ],
    );
    match result {
        ShareValidation::AttachmentPrivacyMismatch {
            attachment_room,
            attachment_privacy,
        } => {
            assert_eq!(attachment_room, "!bad:example.org");
            assert_eq!(attachment_privacy, PrivacyLevel::Private);
        }
        other => panic!("expected AttachmentPrivacyMismatch, got {:?}", other),
    }
}

/// A mentioned user absent from the target membership is listed, exactly
/// once, and only the missing ones are.
#[test]
fn test_sharing_guard_missing_mentions() {
    let mentioned = vec![
        "@alice:example.org".to_string(),
        "@bob:example.org".to_string(),
    ];
    let members = vec!["@alice:example.org".to_string()];

    let result = SharingGuard::validate_share(
        PrivacyLevel::Public,
        PrivacyLevel::Friends,
        &mentioned,
        &members,
        &no_attachments(),
    );
    match result {
        ShareValidation::MissingMentions { missing_users } => {
            assert_eq!(missing_users, vec!["@bob:example.org".to_string()]);
        }
        other => panic!("expected MissingMentions, got {:?}", other),
    }

    // With everyone present the share is allowed.
    let all_members = vec![
        "@alice:example.org".to_string(),
        "@bob:example.org".to_string(),
    ];
    let result = SharingGuard::validate_share(
        PrivacyLevel::Public,
        PrivacyLevel::Friends,
        &mentioned,
        &all_members,
        &no_attachments(),
    );
    assert!(result.is_allowed());
}

#[test]
fn test_sharing_guard_can_share() {
    assert!(SharingGuard::can_share(
        PrivacyLevel::Public,
        PrivacyLevel::Friends
    ));
    assert!(SharingGuard::can_share(
        PrivacyLevel::Friends,
        PrivacyLevel::Friends
    ));
    assert!(!SharingGuard::can_share(
        PrivacyLevel::Friends,
        PrivacyLevel::Public
    ));
}

#[test]
fn test_validate_quote() {
    let result = SharingGuard::validate_quote(PrivacyLevel::Private, PrivacyLevel::Friends);
    assert!(matches!(result, ShareValidation::RequiresConfirmation { .. }));

    let result = SharingGuard::validate_quote(PrivacyLevel::Friends, PrivacyLevel::Friends);
    assert!(matches!(result, ShareValidation::Allowed));

    let result = SharingGuard::validate_quote(PrivacyLevel::Public, PrivacyLevel::Private);
    assert!(matches!(result, ShareValidation::Allowed));
}

#[test]
fn test_share_validation_is_allowed() {
    assert!(ShareValidation::Allowed.is_allowed());

    let blocked = ShareValidation::BlockedPrivacyLeak {
        source_privacy: PrivacyLevel::Friends,
        target_privacy: PrivacyLevel::Public,
    };
    assert!(!blocked.is_allowed());
}

#[test]
fn test_share_validation_error_message() {
    assert!(ShareValidation::Allowed.error_message().is_none());

    let blocked = ShareValidation::BlockedPrivacyLeak {
        source_privacy: PrivacyLevel::Friends,
        target_privacy: PrivacyLevel::Public,
    };
    let msg = blocked.error_message().unwrap();
    assert!(msg.contains("Friends"));
    assert!(msg.contains("Public"));
}

#[test]
fn test_privacy_level_display() {
    assert_eq!(PrivacyLevel::Public.name(), "Public");
    assert_eq!(PrivacyLevel::Friends.name(), "Friends");
    assert_eq!(PrivacyLevel::CloseFriends.name(), "Close Friends");
    assert_eq!(PrivacyLevel::Private.name(), "Private");
}

#[test]
fn test_privacy_level_description() {
    assert!(PrivacyLevel::Public.description().contains("anyone"));
    assert!(PrivacyLevel::Friends.description().contains("Friends"));
    assert!(PrivacyLevel::CloseFriends.description().contains("Close"));
    assert!(PrivacyLevel::Private.description().contains("only you"));
}

#[test]
fn test_privacy_level_name() {
    assert_eq!(privacy_level_name(PrivacyLevel::Public), "public");
    assert_eq!(privacy_level_name(PrivacyLevel::Friends), "friends-only");
    assert_eq!(
        privacy_level_name(PrivacyLevel::CloseFriends),
        "close friends"
    );
    assert_eq!(privacy_level_name(PrivacyLevel::Private), "private");
}

#[test]
fn test_privacy_level_default() {
    let level = PrivacyLevel::default();
    assert_eq!(level, PrivacyLevel::Public);
}

#[test]
fn test_privacy_level_clone_copy() {
    let level = PrivacyLevel::Friends;
    let cloned = level.clone();
    let copied = level;

    assert_eq!(level, cloned);
    assert_eq!(level, copied);
}

/// The ordinal is the single source of truth for the lattice: sharing is
/// exactly ordinal comparison.
#[test]
fn test_can_share_matches_ordinals() {
    let levels = [
        PrivacyLevel::Public,
        PrivacyLevel::Friends,
        PrivacyLevel::CloseFriends,
        PrivacyLevel::Private,
    ];
    for a in levels {
        for b in levels {
            assert_eq!(a.can_share_to(b), b.ordinal() >= a.ordinal());
        }
        assert!(a.can_share_to(a));
    }
    assert!(!PrivacyLevel::Private.can_share_to(PrivacyLevel::Public));
}
