use channel_gate::messages::{
    guide_message, required_channels, start_message, CHECK_FAILED_MESSAGE, DEFAULT_GUIDE_MESSAGE,
    EMPTY_CHANNELS_PLACEHOLDER, NOT_SUBSCRIBED_MESSAGE, START_MESSAGE_PREFIX, START_MESSAGE_SUFFIX,
};
use channel_gate::outcome::{MembershipOutcome, SubscriptionResult};
use channel_gate::reply::{confirm_reply, start_reply};
use channel_gate::verify::verify_outcomes;

#[test]
fn no_configured_channels_means_empty_list() {
    assert_eq!(required_channels(None), Vec::<String>::new());
}

#[test]
fn channels_split_on_commas_semicolons_and_whitespace() {
    let parsed = required_channels(Some("a, @b;c\nd"));
    assert_eq!(parsed, vec!["@a", "@b", "@c", "@d"]);
}

#[test]
fn channels_are_stripped_of_quotes_and_marks() {
    let parsed = required_channels(Some("\"@x\" '@y' \u{feff}z"));
    assert_eq!(parsed, vec!["@x", "@y", "@z"]);
}

#[test]
fn separators_alone_mean_empty_list() {
    assert_eq!(required_channels(Some(" , ; ")), Vec::<String>::new());
    assert_eq!(required_channels(Some("")), Vec::<String>::new());
    assert_eq!(required_channels(Some("''")), Vec::<String>::new());
}

#[test]
fn start_message_lists_channel_links() {
    let channels = vec![String::from("@a"), String::from("@b")];
    let expected = format!(
        "{}\nhttps://t.me/a\nhttps://t.me/b\n{}",
        START_MESSAGE_PREFIX, START_MESSAGE_SUFFIX
    );
    assert_eq!(start_message(&channels), expected);
}

#[test]
fn start_message_without_channels_shows_the_placeholder() {
    let expected = format!(
        "{}\n{}\n{}",
        START_MESSAGE_PREFIX, EMPTY_CHANNELS_PLACEHOLDER, START_MESSAGE_SUFFIX
    );
    assert_eq!(start_message(&Vec::new()), expected);
}

#[test]
fn guide_message_defaults_when_unconfigured() {
    assert_eq!(guide_message(None), DEFAULT_GUIDE_MESSAGE);
}

#[test]
fn guide_message_expands_newline_escapes() {
    assert_eq!(guide_message(Some("line one\\nline two")), "line one\nline two");
    assert_eq!(guide_message(Some("\\\\n")), "\\\n");
}

#[test]
fn scenario_both_channels_joined_releases_the_guide() {
    let outcomes = vec![MembershipOutcome::Member, MembershipOutcome::Member];
    let (result, queried) = verify_outcomes(&outcomes);
    assert_eq!(result, SubscriptionResult::AllSubscribed);
    assert_eq!(queried, 2);
    let guide = guide_message(None);
    let reply = confirm_reply(&result, &guide);
    assert_eq!(reply.text, DEFAULT_GUIDE_MESSAGE);
    assert!(!reply.reattach_control);
}

#[test]
fn scenario_missing_first_channel_prompts_and_reattaches() {
    let outcomes = vec![MembershipOutcome::NotMember];
    let (result, queried) = verify_outcomes(&outcomes);
    assert_eq!(result, SubscriptionResult::MissingAtLeastOne);
    assert_eq!(queried, 1);
    let reply = confirm_reply(&result, &guide_message(None));
    assert_eq!(reply.text, NOT_SUBSCRIBED_MESSAGE);
    assert!(reply.reattach_control);
}

#[test]
fn scenario_unverifiable_first_channel_prompts_and_reattaches() {
    let outcomes = vec![MembershipOutcome::Unknown];
    let (result, queried) = verify_outcomes(&outcomes);
    assert_eq!(result, SubscriptionResult::Indeterminate);
    assert_eq!(queried, 1);
    let reply = confirm_reply(&result, &guide_message(None));
    assert_eq!(reply.text, CHECK_FAILED_MESSAGE);
    assert!(reply.reattach_control);
}

#[test]
fn scenario_no_required_channels_confirms_at_once() {
    let channels = required_channels(None);
    let prompt = start_reply(&channels);
    assert!(prompt.text.contains(EMPTY_CHANNELS_PLACEHOLDER));
    assert!(prompt.reattach_control);
    let (result, queried) = verify_outcomes(&Vec::new());
    assert_eq!(result, SubscriptionResult::AllSubscribed);
    assert_eq!(queried, 0);
    let reply = confirm_reply(&result, &guide_message(None));
    assert_eq!(reply.text, DEFAULT_GUIDE_MESSAGE);
    assert!(!reply.reattach_control);
}
