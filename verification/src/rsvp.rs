//! RSVP records and the authenticity validator.
//!
//! An RSVP is a per-user state record whose owner is declared by a claimed
//! identity field that the transport does not bind to the record's author.
//! The validator re-derives that binding on every record: a record whose
//! claimed owner differs from its actual author is a spoofing attempt, kept
//! distinct from a merely malformed one, and downstream consumers must
//! discard anything that is not valid.

use vstd::prelude::*;

use crate::text::str_eq;

verus! {

/// RSVP status for an event.
#[derive(Clone, Copy, Debug, PartialEq, Eq, Structural)]
pub enum RsvpStatus {
    /// The user is going.
    Going,
    /// The user is interested.
    Interested,
    /// The user is not going.
    NotGoing,
}

/// Default number of guests for an RSVP record: the user alone.
pub fn default_guests() -> (r: u32)
    ensures
        r == 1,
{
    1
}

/// An RSVP record, as carried in a per-user state event.
#[derive(Clone, Debug)]
pub struct SocialRsvpEventContent {
    /// RSVP status.
    pub status: RsvpStatus,
    /// Number of guests, including the user; at least one.
    pub guests: u32,
    /// Optional note.
    pub note: Option<String>,
}

/// RSVP validation result.
#[derive(Clone, Debug)]
pub enum RsvpValidation {
    /// The record is valid: its claimed owner is its author.
    Valid,
    /// The claimed owner does not match the author: a spoofing attempt.
    SenderMismatch {
        /// The user identity claimed in the record's key.
        claimed: String,
        /// The actual author of the record.
        actual: String,
    },
    /// The record's claimed owner is not a user identity at all.
    InvalidContent(String),
}

/// Whether a string is a well-formed user identity, as the protocol's
/// identifier grammar defines it.
pub uninterp spec fn user_id_valid(s: Seq<char>) -> bool;

/// Relies on ruma's `UserId::parse`: whether a string is accepted is a pure
/// function of the string alone (a leading `@`, a colon, a well-formed
/// server name after it, legal localpart characters, at most 255 bytes),
/// and the accepted value is the unchanged input.
#[verifier::external_body]
fn parse_user_id(s: &str) -> (r: bool)
    ensures
        r == user_id_valid(s@),
{
    ruma::UserId::parse(s).is_ok()
}

/// What the ownership check returns: a malformed claimed identity is
/// invalid content, a well-formed one that differs from the author is a
/// sender mismatch carrying both identities, and only an exact match is
/// valid.
pub open spec fn spec_ownership_outcome(
    claimed: Seq<char>,
    actual: Seq<char>,
    r: RsvpValidation,
) -> bool {
    if !user_id_valid(claimed) {
        r matches RsvpValidation::InvalidContent(s) && s@ == "Invalid state_key: "@ + claimed
    } else if claimed != actual {
        r matches RsvpValidation::SenderMismatch { claimed: c, actual: a } && c@ == claimed && a@
            == actual
    } else {
        r is Valid
    }
}

/// Validate that a record's claimed owner is its actual author.
///
/// The transport does not enforce this binding, so every per-user state
/// record must pass through here; equality is exact, never coerced.
pub fn validate_ownership(claimed: &str, actual: &str) -> (r: RsvpValidation)
    ensures
        spec_ownership_outcome(claimed@, actual@, r),
{
    if !parse_user_id(claimed) {
        let mut m = String::from_str("Invalid state_key: ");
        m.append(claimed);
        return RsvpValidation::InvalidContent(m);
    }
    if !str_eq(claimed, actual) {
        return RsvpValidation::SenderMismatch {
            claimed: claimed.to_owned(),
            actual: actual.to_owned(),
        };
    }
    RsvpValidation::Valid
}

/// Validate a state event for RSVP spoofing: for RSVP records the state key
/// must be the sender's identity; any other event type carries no claimed
/// owner and passes.
pub fn validate_rsvp_event(event_type: &str, state_key: &str, sender: &str) -> (r: RsvpValidation)
    ensures
        event_type@ == "org.social.rsvp"@ ==> spec_ownership_outcome(state_key@, sender@, r),
        event_type@ != "org.social.rsvp"@ ==> r is Valid,
{
    if str_eq(event_type, "org.social.rsvp") {
        validate_ownership(state_key, sender)
    } else {
        RsvpValidation::Valid
    }
}

/// A validated RSVP, one that passed the ownership check.
#[derive(Clone, Debug)]
pub struct ValidatedRsvp {
    /// The user who submitted the RSVP.
    pub user_id: String,
    /// The RSVP status.
    pub status: RsvpStatus,
    /// Number of guests, including the user.
    pub guests: u32,
    /// Optional note.
    pub note: Option<String>,
}

/// Aggregated RSVP counts.
#[derive(Clone, Copy, Debug, PartialEq, Eq, Structural)]
pub struct RsvpCounts {
    /// Number of users going.
    pub going: u32,
    /// Number of users interested.
    pub interested: u32,
    /// Number of users not going.
    pub not_going: u32,
    /// Total guests of the users going, plus-ones included.
    pub total_guests: u32,
}

impl Default for RsvpCounts {
    /// Counts start at zero.
    fn default() -> (r: RsvpCounts)
        ensures
            r.going == 0,
            r.interested == 0,
            r.not_going == 0,
            r.total_guests == 0,
    {
        RsvpCounts { going: 0, interested: 0, not_going: 0, total_guests: 0 }
    }
}

/// How many of the RSVPs carry a given status.
pub open spec fn spec_status_count(s: Seq<ValidatedRsvp>, status: RsvpStatus) -> nat
    decreases s.len(),
{
    if s.len() == 0 {
        0
    } else {
        spec_status_count(s.drop_last(), status) + if s.last().status == status {
            1nat
        } else {
            0nat
        }
    }
}

/// The total guests of the RSVPs that are going.
pub open spec fn spec_going_guests(s: Seq<ValidatedRsvp>) -> nat
    decreases s.len(),
{
    if s.len() == 0 {
        0
    } else {
        spec_going_guests(s.drop_last()) + if s.last().status is Going {
            s.last().guests as nat
        } else {
            0nat
        }
    }
}

/// A status counts at most one per record.
pub proof fn lemma_status_count_le_len(s: Seq<ValidatedRsvp>, status: RsvpStatus)
    ensures
        spec_status_count(s, status) <= s.len(),
    decreases s.len(),
{
    if s.len() != 0 {
        lemma_status_count_le_len(s.drop_last(), status);
    }
}

/// Fold validated RSVPs into aggregated counts.
pub fn count_rsvps(rsvps: &Vec<ValidatedRsvp>) -> (r: RsvpCounts)
    requires
        rsvps@.len() <= u32::MAX,
        spec_going_guests(rsvps@) <= u32::MAX,
    ensures
        r.going == spec_status_count(rsvps@, RsvpStatus::Going),
        r.interested == spec_status_count(rsvps@, RsvpStatus::Interested),
        r.not_going == spec_status_count(rsvps@, RsvpStatus::NotGoing),
        r.total_guests == spec_going_guests(rsvps@),
{
    let mut counts = RsvpCounts::default();
    let mut i: usize = 0;
    proof {
        assert(rsvps@.take(0) =~= Seq::<ValidatedRsvp>::empty());
    }
    while i < rsvps.len()
        invariant
            i <= rsvps.len(),
            rsvps@.len() <= u32::MAX,
            spec_going_guests(rsvps@) <= u32::MAX,
            counts.going == spec_status_count(rsvps@.take(i as int), RsvpStatus::Going),
            counts.interested == spec_status_count(rsvps@.take(i as int), RsvpStatus::Interested),
            counts.not_going == spec_status_count(rsvps@.take(i as int), RsvpStatus::NotGoing),
            counts.total_guests == spec_going_guests(rsvps@.take(i as int)),
        decreases rsvps.len() - i,
    {
        proof {
            assert(rsvps@.take(i as int + 1).drop_last() =~= rsvps@.take(i as int));
            assert(rsvps@.take(i as int + 1).last() == rsvps@[i as int]);
            lemma_status_count_le_len(rsvps@.take(i as int + 1), RsvpStatus::Going);
            lemma_status_count_le_len(rsvps@.take(i as int + 1), RsvpStatus::Interested);
            lemma_status_count_le_len(rsvps@.take(i as int + 1), RsvpStatus::NotGoing);
            lemma_going_guests_take_le(rsvps@, i as int + 1);
        }
        match rsvps[i].status {
            RsvpStatus::Going => {
                counts.going = counts.going + 1;
                counts.total_guests = counts.total_guests + rsvps[i].guests;
            },
            RsvpStatus::Interested => {
                counts.interested = counts.interested + 1;
            },
            RsvpStatus::NotGoing => {
                counts.not_going = counts.not_going + 1;
            },
        }
        i = i + 1;
    }
    proof {
        assert(rsvps@.take(i as int) =~= rsvps@);
    }
    counts
}

/// A prefix of the going-guest total never exceeds the whole.
pub proof fn lemma_going_guests_take_le(s: Seq<ValidatedRsvp>, i: int)
    requires
        0 <= i <= s.len(),
    ensures
        spec_going_guests(s.take(i)) <= spec_going_guests(s),
    decreases s.len() - i,
{
    if i == s.len() {
        assert(s.take(i) =~= s);
    } else {
        assert(s.take(i + 1).drop_last() =~= s.take(i));
        assert(s.take(i + 1).last() == s[i]);
        lemma_going_guests_take_le(s, i + 1);
    }
}

/// Errors that can occur when working with RSVPs.
#[derive(Clone, Debug)]
pub enum RsvpError {
    /// User is not logged in to the protocol client.
    NotLoggedIn,
    /// The requested room was not found.
    RoomNotFound,
    /// An error reported by the protocol layer, passed through unchanged.
    MatrixError(String),
}

impl RsvpError {
    /// A human-readable description of the error.
    pub fn message(&self) -> (r: String)
        ensures
            self is NotLoggedIn ==> r@ == "Not logged in"@,
            self is RoomNotFound ==> r@ == "Room not found"@,
            self matches RsvpError::MatrixError(s) ==> r@ == "Matrix error: "@ + s@,
    {
        match self {
            RsvpError::NotLoggedIn => String::from_str("Not logged in"),
            RsvpError::RoomNotFound => String::from_str("Room not found"),
            RsvpError::MatrixError(s) => {
                let mut m = String::from_str("Matrix error: ");
                m.append(s.as_str());
                m
            },
        }
    }
}

} // verus!
