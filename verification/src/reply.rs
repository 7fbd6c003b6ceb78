//! Reply selection for the two handlers: which text is sent and whether
//! the confirmation control is attached to it.

use vstd::prelude::*;
use vstd::string::StringExecFns;

use crate::messages;
use crate::messages::spec_start_message;
use crate::messages::start_message;
use crate::outcome::SubscriptionResult;

verus! {

/// One outbound reply: its text and whether the confirmation control
/// (the button carrying the reserved token) is attached to it.
pub struct Reply {
    pub text: String,
    pub reattach_control: bool,
}

/// The Start Handler's reply: the onboarding prompt for the required
/// channels, always with the confirmation control attached.
pub fn start_reply(channels: &Vec<String>) -> (r: Reply)
    ensures
        r.text@ == spec_start_message(channels.deep_view()),
        r.reattach_control,
{
    Reply { text: start_message(channels), reattach_control: true }
}

/// Chooses the Confirmation Handler's reply. `AllSubscribed` gets the
/// guide text with no control attached; the two other verdicts get a
/// prompt with the control reattached, so the user can press it again.
pub fn confirm_reply(result: &SubscriptionResult, guide: &str) -> (r: Reply)
    ensures
        *result is AllSubscribed ==> r.text@ == guide@ && !r.reattach_control,
        *result is MissingAtLeastOne ==> r.text@ == messages::NOT_SUBSCRIBED_MESSAGE@
            && r.reattach_control,
        *result is Indeterminate ==> r.text@ == messages::CHECK_FAILED_MESSAGE@
            && r.reattach_control,
{
    match result {
        SubscriptionResult::AllSubscribed => Reply {
            text: String::from_str(guide),
            reattach_control: false,
        },
        SubscriptionResult::MissingAtLeastOne => Reply {
            text: String::from_str(messages::NOT_SUBSCRIBED_MESSAGE),
            reattach_control: true,
        },
        SubscriptionResult::Indeterminate => Reply {
            text: String::from_str(messages::CHECK_FAILED_MESSAGE),
            reattach_control: true,
        },
    }
}

} // verus!
