//! Reaction aggregation tests: idempotent adds, removal as the exact
//! inverse of a prior add, ranked summaries, and merge round trips.

use robrix_social::reactions::{reactions_for_display, ReactionSummary};

#[test]
fn test_add_reaction() {
    let mut summary = ReactionSummary::new();
    summary.add_reaction("👍", "@alice:example.org", "$1:example.org");
    summary.add_reaction("👍", "@bob:example.org", "$2:example.org");
    summary.add_reaction("❤️", "@alice:example.org", "$3:example.org");

    assert_eq!(summary.count("👍"), 2);
    assert_eq!(summary.count("❤️"), 1);
    assert_eq!(summary.total(), 3);
}

#[test]
fn test_duplicate_reaction_ignored() {
    let mut summary = ReactionSummary::new();
    summary.add_reaction("👍", "@alice:example.org", "$1:example.org");
    summary.add_reaction("👍", "@alice:example.org", "$2:example.org");

    assert_eq!(summary.count("👍"), 1);
    assert_eq!(summary.total(), 1);
}

#[test]
fn test_remove_reaction() {
    let mut summary = ReactionSummary::new();
    summary.add_reaction("👍", "@alice:example.org", "$1:example.org");
    summary.add_reaction("👍", "@bob:example.org", "$2:example.org");

    let removed = summary.remove_reaction("👍", "@alice:example.org");
    assert!(removed.is_some());
    assert_eq!(summary.count("👍"), 1);
    assert_eq!(summary.total(), 1);
}

/// Removing the one reaction an add counted returns the count to zero and
/// prunes the emoji key, and yields the record of that very add.
#[test]
fn test_remove_inverts_add() {
    let mut summary = ReactionSummary::new();
    summary.add_reaction("👍", "@alice:example.org", "$1:example.org");

    let removed = summary.remove_reaction("👍", "@alice:example.org");
    assert_eq!(removed, Some("$1:example.org".to_string()));
    assert_eq!(summary.count("👍"), 0);
    assert_eq!(summary.total(), 0);
    assert!(summary.emojis().is_empty());
    assert!(summary.is_empty());

    // Removing a reaction that is not there yields nothing.
    assert_eq!(summary.remove_reaction("👍", "@alice:example.org"), None);
}

#[test]
fn test_has_user_reacted() {
    let mut summary = ReactionSummary::new();
    summary.add_reaction("👍", "@alice:example.org", "$1:example.org");

    assert!(summary.has_user_reacted("👍", "@alice:example.org"));
    assert!(!summary.has_user_reacted("👍", "@bob:example.org"));
    assert!(!summary.has_user_reacted("❤️", "@alice:example.org"));
}

#[test]
fn test_get_event_id() {
    let mut summary = ReactionSummary::new();
    summary.add_reaction("👍", "@alice:example.org", "$1:example.org");

    assert_eq!(
        summary.get_event_id("@alice:example.org", "👍"),
        Some("$1:example.org".to_string())
    );
    assert_eq!(summary.get_event_id("@bob:example.org", "👍"), None);
}

#[test]
fn test_top_reactions() {
    let mut summary = ReactionSummary::new();
    summary.add_reaction("👍", "@alice:example.org", "$1:example.org");
    summary.add_reaction("👍", "@bob:example.org", "$2:example.org");
    summary.add_reaction("❤️", "@alice:example.org", "$3:example.org");
    summary.add_reaction("🔥", "@alice:example.org", "$4:example.org");
    summary.add_reaction("🔥", "@bob:example.org", "$5:example.org");
    summary.add_reaction("🔥", "@charlie:example.org", "$6:example.org");

    let top = summary.top_reactions(2);
    assert_eq!(top.len(), 2);
    assert_eq!(top[0].0, "🔥");
    assert_eq!(top[0].1, 3);
    assert_eq!(top[1].0, "👍");
    assert_eq!(top[1].1, 2);
}

/// Ties are broken by insertion order: the sort is stable.
#[test]
fn test_top_reactions_stable_ties() {
    let mut summary = ReactionSummary::new();
    summary.add_reaction("❤️", "@alice:example.org", "$1:example.org");
    summary.add_reaction("👍", "@bob:example.org", "$2:example.org");
    summary.add_reaction("🔥", "@carol:example.org", "$3:example.org");

    let top = summary.top_reactions(3);
    assert_eq!(top.len(), 3);
    assert_eq!(top[0].0, "❤️");
    assert_eq!(top[1].0, "👍");
    assert_eq!(top[2].0, "🔥");
}

#[test]
fn test_counts_and_users() {
    let mut summary = ReactionSummary::new();
    summary.add_reaction("👍", "@alice:example.org", "$1:example.org");
    summary.add_reaction("👍", "@bob:example.org", "$2:example.org");

    let counts = summary.counts();
    assert_eq!(counts, vec![("👍".to_string(), 2)]);

    let users = summary.users_for_emoji("👍").unwrap();
    assert_eq!(
        users,
        vec!["@alice:example.org".to_string(), "@bob:example.org".to_string()]
    );
    assert!(summary.users_for_emoji("❤️").is_none());
}

#[test]
fn test_clear() {
    let mut summary = ReactionSummary::new();
    summary.add_reaction("👍", "@alice:example.org", "$1:example.org");
    summary.clear();
    assert!(summary.is_empty());
    assert_eq!(summary.total(), 0);
    assert_eq!(summary.count("👍"), 0);
}

/// Merging a summary into an empty one reproduces it exactly: same counts,
/// same user lists, same record identifiers.
#[test]
fn test_merge_into_empty_round_trip() {
    let mut original = ReactionSummary::new();
    original.add_reaction("👍", "@alice:example.org", "$1:example.org");
    original.add_reaction("👍", "@bob:example.org", "$2:example.org");
    original.add_reaction("❤️", "@carol:example.org", "$3:example.org");

    let mut copy = ReactionSummary::new();
    copy.merge(&original);

    assert_eq!(copy.counts(), original.counts());
    assert_eq!(copy.total(), original.total());
    assert_eq!(copy.emojis(), original.emojis());
    assert_eq!(copy.users_for_emoji("👍"), original.users_for_emoji("👍"));
    assert_eq!(copy.users_for_emoji("❤️"), original.users_for_emoji("❤️"));
    assert_eq!(
        copy.get_event_id("@alice:example.org", "👍"),
        original.get_event_id("@alice:example.org", "👍")
    );
    assert_eq!(
        copy.get_event_id("@bob:example.org", "👍"),
        original.get_event_id("@bob:example.org", "👍")
    );
    assert_eq!(
        copy.get_event_id("@carol:example.org", "❤️"),
        original.get_event_id("@carol:example.org", "❤️")
    );
}

/// Merging overlapping partial summaries never double-counts.
#[test]
fn test_merge_overlapping_no_double_count() {
    let mut left = ReactionSummary::new();
    left.add_reaction("👍", "@alice:example.org", "$1:example.org");
    left.add_reaction("👍", "@bob:example.org", "$2:example.org");

    let mut right = ReactionSummary::new();
    right.add_reaction("👍", "@bob:example.org", "$2:example.org");
    right.add_reaction("❤️", "@alice:example.org", "$3:example.org");

    left.merge(&right);
    assert_eq!(left.count("👍"), 2);
    assert_eq!(left.count("❤️"), 1);
    assert_eq!(left.total(), 3);

    // Merging a summary into itself is also a no-op.
    let snapshot = left.counts();
    let same = left.clone();
    left.merge(&same);
    assert_eq!(left.counts(), snapshot);
}

#[test]
fn test_reactions_for_display() {
    let mut summary = ReactionSummary::new();
    summary.add_reaction("👍", "@alice:example.org", "$1:example.org");
    summary.add_reaction("👍", "@bob:example.org", "$2:example.org");

    let display = reactions_for_display(&summary, Some("@alice:example.org"));
    assert_eq!(display.len(), 1);
    assert_eq!(display[0].emoji, "👍");
    assert_eq!(display[0].count, 2);
    assert!(display[0].is_selected);

    let display_other = reactions_for_display(&summary, Some("@charlie:example.org"));
    assert!(!display_other[0].is_selected);

    let display_nobody = reactions_for_display(&summary, None);
    assert!(!display_nobody[0].is_selected);
}
