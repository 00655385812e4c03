//! Privacy classification lattice and the sharing guard.
//!
//! Content carries one of four privacy levels, totally ordered from the
//! widest audience (`Public`) to the narrowest (`Private`). Content may only
//! flow toward an equally or more restrictive audience; the sharing guard
//! enforces that rule, together with attachment and mention checks, before
//! any cross-posting operation. These are pure decision functions: actually
//! blocking a send is the caller's responsibility.

use vstd::prelude::*;

use crate::text::spec_contains_name;
use crate::text::contains_name;

verus! {

/// Privacy level for content visibility, ordered from least restrictive
/// (`Public`) to most restrictive (`Private`).
#[derive(Clone, Copy, Debug, PartialEq, Eq, PartialOrd, Ord, Structural, Hash)]
pub enum PrivacyLevel {
    /// Anyone can see this content.
    Public,
    /// Only friends can see this content.
    Friends,
    /// Only close friends can see this content.
    CloseFriends,
    /// Only the author can see this content.
    Private,
}

impl Default for PrivacyLevel {
    /// Content defaults to the widest audience.
    fn default() -> (r: PrivacyLevel)
        ensures
            r is Public,
    {
        PrivacyLevel::Public
    }
}

impl View for PrivacyLevel {
    type V = PrivacyLevel;

    open spec fn view(&self) -> PrivacyLevel {
        *self
    }
}

impl DeepView for PrivacyLevel {
    type V = PrivacyLevel;

    open spec fn deep_view(&self) -> PrivacyLevel {
        *self
    }
}

impl PrivacyLevel {
    /// Numeric rank of this level: higher means more restrictive.
    pub open spec fn spec_ordinal(&self) -> u8 {
        match self {
            PrivacyLevel::Public => 0,
            PrivacyLevel::Friends => 1,
            PrivacyLevel::CloseFriends => 2,
            PrivacyLevel::Private => 3,
        }
    }

    /// Get the numeric value for ordering (higher = more restrictive).
    #[verifier::when_used_as_spec(spec_ordinal)]
    pub fn ordinal(&self) -> (r: u8)
        ensures
            r == self.spec_ordinal(),
    {
        match self {
            PrivacyLevel::Public => 0,
            PrivacyLevel::Friends => 1,
            PrivacyLevel::CloseFriends => 2,
            PrivacyLevel::Private => 3,
        }
    }

    /// Whether content at this level may flow to a destination at `destination`.
    pub open spec fn spec_can_share_to(self, destination: PrivacyLevel) -> bool {
        destination.spec_ordinal() >= self.spec_ordinal()
    }

    /// Check if content with this privacy level can be shared to a
    /// destination with the given privacy level. Content can only flow to
    /// equally or more restrictive destinations.
    pub fn can_share_to(&self, destination: PrivacyLevel) -> (r: bool)
        ensures
            r == self.spec_can_share_to(destination),
    {
        destination.ordinal() >= self.ordinal()
    }

    /// Get a human-readable description of this privacy level.
    pub fn description(&self) -> (r: &'static str)
        ensures
            self is Public ==> r@ == "Public (anyone can see)"@,
            self is Friends ==> r@ == "Friends only"@,
            self is CloseFriends ==> r@ == "Close friends only"@,
            self is Private ==> r@ == "Private (only you)"@,
    {
        match self {
            PrivacyLevel::Public => "Public (anyone can see)",
            PrivacyLevel::Friends => "Friends only",
            PrivacyLevel::CloseFriends => "Close friends only",
            PrivacyLevel::Private => "Private (only you)",
        }
    }

    /// Display name of this privacy level.
    pub fn name(&self) -> (r: &'static str)
        ensures
            self is Public ==> r@ == "Public"@,
            self is Friends ==> r@ == "Friends"@,
            self is CloseFriends ==> r@ == "Close Friends"@,
            self is Private ==> r@ == "Private"@,
    {
        match self {
            PrivacyLevel::Public => "Public",
            PrivacyLevel::Friends => "Friends",
            PrivacyLevel::CloseFriends => "Close Friends",
            PrivacyLevel::Private => "Private",
        }
    }
}

/// Lowercase audience name of a privacy level, as used in explanations.
pub fn privacy_level_name(level: PrivacyLevel) -> (r: &'static str)
    ensures
        level is Public ==> r@ == "public"@,
        level is Friends ==> r@ == "friends-only"@,
        level is CloseFriends ==> r@ == "close friends"@,
        level is Private ==> r@ == "private"@,
{
    match level {
        PrivacyLevel::Public => "public",
        PrivacyLevel::Friends => "friends-only",
        PrivacyLevel::CloseFriends => "close friends",
        PrivacyLevel::Private => "private",
    }
}

/// The ordering is a total lattice: sharing is reflexive, content may always
/// stay at its own level, and fully private content can never flow to the
/// public level.
pub proof fn lemma_share_lattice(a: PrivacyLevel, b: PrivacyLevel)
    ensures
        a.spec_can_share_to(b) == (b.spec_ordinal() >= a.spec_ordinal()),
        a.spec_can_share_to(a),
        !PrivacyLevel::Private.spec_can_share_to(PrivacyLevel::Public),
{
}

/// Result of validating a share operation. Exactly one variant is produced
/// per call, carrying the data needed to explain the decision.
#[derive(Clone, Debug)]
pub enum ShareValidation {
    /// The share is allowed.
    Allowed,
    /// The share would leak private content to a less restrictive audience.
    BlockedPrivacyLeak {
        /// The privacy level of the source content.
        source_privacy: PrivacyLevel,
        /// The privacy level of the target destination.
        target_privacy: PrivacyLevel,
    },
    /// The share is only allowed after explicit user confirmation.
    RequiresConfirmation {
        /// Why confirmation is asked for.
        warning: String,
    },
    /// Mentioned users are not members of the target room.
    MissingMentions {
        /// Every mentioned user missing from the target, in mention order.
        missing_users: Vec<String>,
    },
    /// An attached item has incompatible privacy.
    AttachmentPrivacyMismatch {
        /// The room containing the attachment.
        attachment_room: String,
        /// The privacy level of the attachment.
        attachment_privacy: PrivacyLevel,
    },
}

impl ShareValidation {
    /// Check if the validation passed (share is allowed).
    pub fn is_allowed(&self) -> (r: bool)
        ensures
            r == (self is Allowed),
    {
        match self {
            ShareValidation::Allowed => true,
            _ => false,
        }
    }

    /// Get a human-readable error message if validation failed.
    pub fn error_message(&self) -> (r: Option<String>)
        ensures
            self is Allowed <==> r is None,
            self matches ShareValidation::BlockedPrivacyLeak { source_privacy, target_privacy }
                ==> (r matches Some(m) && m@ == "Cannot share "@ + spec_level_name(*source_privacy)
                + " content to "@ + spec_level_name(*target_privacy) + " destination"@),
            self matches ShareValidation::RequiresConfirmation { warning } ==> (r matches Some(m)
                && m@ == warning@),
            self is MissingMentions ==> (r matches Some(m) && m@
                == "Mentioned users are not in the target room"@),
            self matches ShareValidation::AttachmentPrivacyMismatch {
                attachment_room,
                attachment_privacy,
            } ==> (r matches Some(m) && m@ == "Attachment from room "@ + attachment_room@
                + " has "@ + spec_level_name(*attachment_privacy)
                + " privacy which is incompatible"@),
    {
        match self {
            ShareValidation::Allowed => None,
            ShareValidation::BlockedPrivacyLeak { source_privacy, target_privacy } => {
                let mut m = String::from_str("Cannot share ");
                m.append(source_privacy.name());
                m.append(" content to ");
                m.append(target_privacy.name());
                m.append(" destination");
                Some(m)
            },
            ShareValidation::RequiresConfirmation { warning } => Some(warning.clone()),
            ShareValidation::MissingMentions { .. } => {
                Some(String::from_str("Mentioned users are not in the target room"))
            },
            ShareValidation::AttachmentPrivacyMismatch { attachment_room, attachment_privacy } => {
                let mut m = String::from_str("Attachment from room ");
                m.append(attachment_room.as_str());
                m.append(" has ");
                m.append(attachment_privacy.name());
                m.append(" privacy which is incompatible");
                Some(m)
            },
        }
    }
}

/// Display name of a privacy level, at the specification level.
pub open spec fn spec_level_name(level: PrivacyLevel) -> Seq<char> {
    match level {
        PrivacyLevel::Public => "Public"@,
        PrivacyLevel::Friends => "Friends"@,
        PrivacyLevel::CloseFriends => "Close Friends"@,
        PrivacyLevel::Private => "Private"@,
    }
}

/// The mentioned users that are absent from the target membership, in
/// mention order.
pub open spec fn spec_missing_mentions(
    mentioned: Seq<Seq<char>>,
    members: Seq<Seq<char>>,
) -> Seq<Seq<char>> {
    mentioned.filter(|u: Seq<char>| !spec_contains_name(members, u))
}

/// The first attachment, in input order, whose privacy cannot flow to the
/// target level.
pub open spec fn spec_first_blocked_attachment(
    attachments: Seq<(Seq<char>, PrivacyLevel)>,
    target_privacy: PrivacyLevel,
) -> Option<(Seq<char>, PrivacyLevel)>
    decreases attachments.len(),
{
    if attachments.len() == 0 {
        None
    } else if !attachments[0].1.spec_can_share_to(target_privacy) {
        Some(attachments[0])
    } else {
        spec_first_blocked_attachment(attachments.drop_first(), target_privacy)
    }
}

/// The outcome the sharing rules assign to a share request, first matching
/// rule deciding: the friends-to-public confirmation gate, then the general
/// lattice rule, then attachments in input order, then mentions.
pub open spec fn spec_share_outcome(
    source_privacy: PrivacyLevel,
    target_privacy: PrivacyLevel,
    mentioned: Seq<Seq<char>>,
    members: Seq<Seq<char>>,
    attachments: Seq<(Seq<char>, PrivacyLevel)>,
    r: ShareValidation,
) -> bool {
    if source_privacy is Friends && target_privacy is Public {
        r matches ShareValidation::RequiresConfirmation { warning } && warning@
            == friends_to_public_warning()
    } else if !source_privacy.spec_can_share_to(target_privacy) {
        r matches ShareValidation::BlockedPrivacyLeak { source_privacy: s, target_privacy: t }
            && s == source_privacy && t == target_privacy
    } else if spec_first_blocked_attachment(attachments, target_privacy) is Some {
        let first = spec_first_blocked_attachment(attachments, target_privacy)->0;
        r matches ShareValidation::AttachmentPrivacyMismatch {
            attachment_room,
            attachment_privacy,
        } && attachment_room@ == first.0 && attachment_privacy == first.1
    } else if spec_missing_mentions(mentioned, members).len() > 0 {
        r matches ShareValidation::MissingMentions { missing_users } && missing_users.deep_view()
            == spec_missing_mentions(mentioned, members)
    } else {
        r is Allowed
    }
}

/// The warning shown before friends-only content is shared publicly.
pub open spec fn friends_to_public_warning() -> Seq<char> {
    "You are about to share friends-only content publicly. The original author may not have intended this content to be shared publicly."@
}

/// The warning shown when a reply quotes content from a more private room.
pub open spec fn quote_warning() -> Seq<char> {
    "Your reply quotes content from a more private room. This may expose private information."@
}

/// Guard that validates sharing operations to prevent privacy leaks.
///
/// This is the main entry point for privacy validation: consult
/// [`SharingGuard::validate_share`] before allowing any cross-posting or
/// sharing operation.
pub struct SharingGuard;

impl SharingGuard {
    /// Validate a share/cross-post action.
    ///
    /// The rules are applied in order, first match deciding:
    /// 1. friends-only content offered publicly asks for confirmation;
    /// 2. content must be able to flow to the target level;
    /// 3. every attachment must be able to flow to the target level, the
    ///    first offending one, in input order, being reported;
    /// 4. every mentioned user must be a member of the target room, all the
    ///    missing ones being reported.
    pub fn validate_share(
        source_privacy: PrivacyLevel,
        target_privacy: PrivacyLevel,
        mentioned_users: &Vec<String>,
        target_members: &Vec<String>,
        attachments: &Vec<(String, PrivacyLevel)>,
    ) -> (r: ShareValidation)
        ensures
            spec_share_outcome(
                source_privacy,
                target_privacy,
                mentioned_users.deep_view(),
                target_members.deep_view(),
                attachments.deep_view(),
                r,
            ),
    {
        // Warn when sharing from semi-private to public. This is checked
        // before the general lattice rule, which would otherwise block the
        // transition outright.
        if matches!(source_privacy, PrivacyLevel::Friends) && matches!(
            target_privacy,
            PrivacyLevel::Public,
        ) {
            return ShareValidation::RequiresConfirmation {
                warning: String::from_str(
                    "You are about to share friends-only content publicly. The original author may not have intended this content to be shared publicly.",
                ),
            };
        }

        if !source_privacy.can_share_to(target_privacy) {
            return ShareValidation::BlockedPrivacyLeak { source_privacy, target_privacy };
        }

        // Check attachments in input order.
        let ghost atts = attachments.deep_view();
        let mut i: usize = 0;
        proof {
            assert(atts.skip(0) =~= atts);
        }
        while i < attachments.len()
            invariant
                !(source_privacy is Friends && target_privacy is Public),
                source_privacy.spec_can_share_to(target_privacy),
                i <= attachments.len(),
                atts == attachments.deep_view(),
                atts.len() == attachments.len(),
                forall|j: int| 0 <= j < i ==> #[trigger] atts[j].1.spec_can_share_to(
                    target_privacy,
                ),
                spec_first_blocked_attachment(atts, target_privacy)
                    == spec_first_blocked_attachment(atts.skip(i as int), target_privacy),
            decreases attachments.len() - i,
        {
            let (attachment_room, attachment_privacy) = &attachments[i];
            proof {
                assert(atts.skip(i as int)[0] == atts[i as int]);
                assert(atts[i as int].0 == attachment_room@);
                assert(atts[i as int].1 == attachment_privacy@);
            }
            if !attachment_privacy.can_share_to(target_privacy) {
                proof {
                    assert(spec_first_blocked_attachment(atts.skip(i as int), target_privacy)
                        == Some(atts[i as int]));
                }
                return ShareValidation::AttachmentPrivacyMismatch {
                    attachment_room: attachment_room.clone(),
                    attachment_privacy: *attachment_privacy,
                };
            }
            proof {
                assert(atts.skip(i as int).drop_first() =~= atts.skip(i as int + 1));
            }
            i = i + 1;
        }
        proof {
            assert(atts.skip(i as int) =~= Seq::<(Seq<char>, PrivacyLevel)>::empty());
        }

        // Collect every mentioned user that is missing from the target room.
        let ghost mentioned = mentioned_users.deep_view();
        let ghost absent = |u: Seq<char>| !spec_contains_name(target_members.deep_view(), u);
        let mut missing: Vec<String> = Vec::new();
        let mut k: usize = 0;
        proof {
            assert(mentioned.take(0).filter(absent) =~= Seq::<Seq<char>>::empty());
        }
        while k < mentioned_users.len()
            invariant
                k <= mentioned_users.len(),
                mentioned == mentioned_users.deep_view(),
                mentioned.len() == mentioned_users.len(),
                absent == (|u: Seq<char>| !spec_contains_name(target_members.deep_view(), u)),
                missing.deep_view() == mentioned.take(k as int).filter(absent),
            decreases mentioned_users.len() - k,
        {
            let user = &mentioned_users[k];
            proof {
                let t1 = mentioned.take(k as int + 1);
                reveal_with_fuel(Seq::filter, 2);
                assert(t1.drop_last() =~= mentioned.take(k as int));
                assert(t1.last() == user@);
                assert(t1.filter(absent) == if absent(user@) {
                    mentioned.take(k as int).filter(absent).push(user@)
                } else {
                    mentioned.take(k as int).filter(absent)
                });
            }
            if !contains_name(target_members, user.as_str()) {
                let ghost before = missing.deep_view();
                missing.push(user.clone());
                proof {
                    assert(missing.deep_view() =~= before.push(user@));
                }
            }
            k = k + 1;
        }
        proof {
            assert(mentioned.take(k as int) =~= mentioned);
        }
        if missing.len() > 0 {
            return ShareValidation::MissingMentions { missing_users: missing };
        }

        ShareValidation::Allowed
    }

    /// Check if a quote/reply leaks content from a more private room: quoting
    /// out of a more private context asks for confirmation, anything else is
    /// allowed.
    pub fn validate_quote(
        original_room_privacy: PrivacyLevel,
        reply_room_privacy: PrivacyLevel,
    ) -> (r: ShareValidation)
        ensures
            original_room_privacy.spec_ordinal() > reply_room_privacy.spec_ordinal() ==> (
            r matches ShareValidation::RequiresConfirmation { warning } && warning@
                == quote_warning()),
            original_room_privacy.spec_ordinal() <= reply_room_privacy.spec_ordinal() ==> r
                is Allowed,
    {
        if original_room_privacy.ordinal() > reply_room_privacy.ordinal() {
            ShareValidation::RequiresConfirmation {
                warning: String::from_str(
                    "Your reply quotes content from a more private room. This may expose private information.",
                ),
            }
        } else {
            ShareValidation::Allowed
        }
    }

    /// Quick check if a privacy level transition is valid.
    pub fn can_share(source: PrivacyLevel, target: PrivacyLevel) -> (r: bool)
        ensures
            r == source.spec_can_share_to(target),
    {
        source.can_share_to(target)
    }
}

} // verus!
