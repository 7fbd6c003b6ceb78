//! Tri-state membership outcomes and the role classification that
//! produces them from a platform role report.

use vstd::prelude::*;

verus! {

/// What one membership query for a (user, channel) pair established.
#[derive(Clone, Copy, Debug, PartialEq, Eq, Structural)]
pub enum MembershipOutcome {
    /// The user is definitely a member of the channel.
    Member,
    /// The user is definitely not a member of the channel.
    NotMember,
    /// The query could not be answered (transport or permission failure).
    Unknown,
}

/// The aggregate verdict of one verification pass over all required channels.
#[derive(Clone, Copy, Debug, PartialEq, Eq, Structural)]
pub enum SubscriptionResult {
    /// Every required channel reported `Member`.
    AllSubscribed,
    /// Some channel definitely reported `NotMember`.
    MissingAtLeastOne,
    /// A channel could not be checked before any `NotMember` was seen.
    Indeterminate,
}

/// The platform's role vocabulary for a user within a channel, reduced to
/// the data the classification reads.
#[derive(Clone, Copy, Debug, PartialEq, Eq, Structural)]
pub enum ChatRole {
    Owner,
    Administrator,
    Member,
    /// A restricted role; `is_member` says whether the user still
    /// participates in the channel.
    Restricted { is_member: bool },
    Left,
    Banned,
}

/// Whether a role counts as active membership.
pub open spec fn spec_role_is_member(role: ChatRole) -> bool {
    match role {
        ChatRole::Owner => true,
        ChatRole::Administrator => true,
        ChatRole::Member => true,
        ChatRole::Restricted { is_member } => is_member,
        ChatRole::Left => false,
        ChatRole::Banned => false,
    }
}

/// The outcome a successful role lookup maps to.
pub open spec fn spec_classify_role(role: ChatRole) -> MembershipOutcome {
    if spec_role_is_member(role) {
        MembershipOutcome::Member
    } else {
        MembershipOutcome::NotMember
    }
}

/// Maps a successfully looked-up role to a definite outcome.
pub fn classify_role(role: &ChatRole) -> (r: MembershipOutcome)
    ensures
        r == spec_classify_role(*role),
{
    match role {
        ChatRole::Owner => MembershipOutcome::Member,
        ChatRole::Administrator => MembershipOutcome::Member,
        ChatRole::Member => MembershipOutcome::Member,
        ChatRole::Restricted { is_member } => {
            if *is_member {
                MembershipOutcome::Member
            } else {
                MembershipOutcome::NotMember
            }
        },
        ChatRole::Left => MembershipOutcome::NotMember,
        ChatRole::Banned => MembershipOutcome::NotMember,
    }
}

/// The outcome of a whole query: a failed lookup is `Unknown`, never an
/// error, and a successful one classifies the reported role.
pub open spec fn spec_query_outcome(looked_up: Option<ChatRole>) -> MembershipOutcome {
    match looked_up {
        Some(role) => spec_classify_role(role),
        None => MembershipOutcome::Unknown,
    }
}

/// Turns the result of one membership lookup into the tri-state outcome:
/// `None` stands for any transport or permission failure.
pub fn query_outcome(looked_up: &Option<ChatRole>) -> (r: MembershipOutcome)
    ensures
        r == spec_query_outcome(*looked_up),
{
    match looked_up {
        Some(role) => classify_role(role),
        None => MembershipOutcome::Unknown,
    }
}

} // verus!
