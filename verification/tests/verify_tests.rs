use channel_gate::outcome::{classify_role, query_outcome, ChatRole, MembershipOutcome, SubscriptionResult};
use channel_gate::verify::{verify_begin, verify_outcomes, verify_step, VerifyState};

#[test]
fn classify_active_roles_as_member() {
    assert_eq!(classify_role(&ChatRole::Owner), MembershipOutcome::Member);
    assert_eq!(classify_role(&ChatRole::Administrator), MembershipOutcome::Member);
    assert_eq!(classify_role(&ChatRole::Member), MembershipOutcome::Member);
    assert_eq!(
        classify_role(&ChatRole::Restricted { is_member: true }),
        MembershipOutcome::Member
    );
}

#[test]
fn classify_inactive_roles_as_not_member() {
    assert_eq!(
        classify_role(&ChatRole::Restricted { is_member: false }),
        MembershipOutcome::NotMember
    );
    assert_eq!(classify_role(&ChatRole::Left), MembershipOutcome::NotMember);
    assert_eq!(classify_role(&ChatRole::Banned), MembershipOutcome::NotMember);
}

#[test]
fn failed_lookup_is_unknown() {
    assert_eq!(query_outcome(&None), MembershipOutcome::Unknown);
    assert_eq!(query_outcome(&Some(ChatRole::Left)), MembershipOutcome::NotMember);
    assert_eq!(query_outcome(&Some(ChatRole::Owner)), MembershipOutcome::Member);
}

#[test]
fn all_members_is_all_subscribed() {
    let outcomes = vec![MembershipOutcome::Member, MembershipOutcome::Member];
    assert_eq!(
        verify_outcomes(&outcomes),
        (SubscriptionResult::AllSubscribed, 2)
    );
}

#[test]
fn first_not_member_short_circuits() {
    let outcomes = vec![MembershipOutcome::NotMember, MembershipOutcome::Member];
    assert_eq!(
        verify_outcomes(&outcomes),
        (SubscriptionResult::MissingAtLeastOne, 1)
    );
    let later = vec![
        MembershipOutcome::Member,
        MembershipOutcome::NotMember,
        MembershipOutcome::Unknown,
    ];
    assert_eq!(
        verify_outcomes(&later),
        (SubscriptionResult::MissingAtLeastOne, 2)
    );
}

#[test]
fn first_unknown_short_circuits() {
    let outcomes = vec![MembershipOutcome::Unknown, MembershipOutcome::Member];
    assert_eq!(
        verify_outcomes(&outcomes),
        (SubscriptionResult::Indeterminate, 1)
    );
    let masks_later_gap = vec![
        MembershipOutcome::Member,
        MembershipOutcome::Unknown,
        MembershipOutcome::NotMember,
    ];
    assert_eq!(
        verify_outcomes(&masks_later_gap),
        (SubscriptionResult::Indeterminate, 2)
    );
}

#[test]
fn empty_pass_is_all_subscribed_without_queries() {
    let outcomes: Vec<MembershipOutcome> = vec![];
    assert_eq!(
        verify_outcomes(&outcomes),
        (SubscriptionResult::AllSubscribed, 0)
    );
}

#[test]
fn stepwise_pass_over_empty_list_is_done_at_once() {
    assert_eq!(
        verify_begin(0),
        VerifyState::Done {
            result: SubscriptionResult::AllSubscribed
        }
    );
}

#[test]
fn stepwise_pass_all_members() {
    let s0 = verify_begin(2);
    assert_eq!(s0, VerifyState::Probing { queried: 0, total: 2 });
    let s1 = verify_step(&s0, MembershipOutcome::Member);
    assert_eq!(s1, VerifyState::Probing { queried: 1, total: 2 });
    let s2 = verify_step(&s1, MembershipOutcome::Member);
    assert_eq!(
        s2,
        VerifyState::Done {
            result: SubscriptionResult::AllSubscribed
        }
    );
}

#[test]
fn stepwise_pass_stops_on_not_member() {
    let s0 = verify_begin(2);
    let s1 = verify_step(&s0, MembershipOutcome::NotMember);
    assert_eq!(
        s1,
        VerifyState::Done {
            result: SubscriptionResult::MissingAtLeastOne
        }
    );
}

#[test]
fn stepwise_pass_stops_on_unknown() {
    let s0 = verify_begin(3);
    let s1 = verify_step(&s0, MembershipOutcome::Member);
    let s2 = verify_step(&s1, MembershipOutcome::Unknown);
    assert_eq!(
        s2,
        VerifyState::Done {
            result: SubscriptionResult::Indeterminate
        }
    );
}
