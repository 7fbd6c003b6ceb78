//! The event router: classifies one inbound platform event and decides
//! which handler, if any, it is dispatched to.

use vstd::prelude::*;

use crate::messages;
use crate::text::str_eq;

verus! {

/// One inbound platform event, consumed exactly once by the router.
pub enum InboundEvent {
    /// A message carrying a slash command `name`, sent in `chat` by `user`.
    Command { name: String, chat: i64, user: u64 },
    /// A button press: `token` identifies the callback for
    /// acknowledgement, `chat` is the chat the pressed message sits in
    /// (when the platform reports one), and `payload` is the data the
    /// pressed control carried.
    CallbackPress { token: String, chat: Option<i64>, user: u64, payload: Option<String> },
}

/// What the router decided to do with one event.
pub enum Dispatch {
    /// Invoke the Start Handler in `chat`.
    Start { chat: i64 },
    /// Acknowledge the callback `token`, then invoke the Confirmation
    /// Handler for `user`, replying in `chat`.
    Confirm { token: String, chat: i64, user: u64 },
    /// Drop the event: no acknowledgement, no reply, no error.
    Ignored,
}

/// The chat a confirmation reply goes to: the chat of the pressed
/// message when the platform reports one, else the user's own chat (or
/// chat zero if the user identifier does not fit a chat identifier).
pub open spec fn spec_confirm_chat(chat: Option<i64>, user: u64) -> i64 {
    match chat {
        Some(c) => c,
        None => if user <= i64::MAX as u64 {
            user as i64
        } else {
            0
        },
    }
}

/// Where one event is dispatched: a message whose command is the
/// onboarding command goes to the Start Handler, a button press whose
/// payload is exactly the reserved confirmation token goes to the
/// Confirmation Handler, and every other event is ignored.
pub open spec fn spec_route(event: InboundEvent) -> Dispatch {
    match event {
        InboundEvent::Command { name, chat, user } => {
            if name@ == messages::START_COMMAND@ {
                Dispatch::Start { chat }
            } else {
                Dispatch::Ignored
            }
        },
        InboundEvent::CallbackPress { token, chat, user, payload } => {
            match payload {
                Some(p) => {
                    if p@ == messages::DONE_CALLBACK_DATA@ {
                        Dispatch::Confirm { token, chat: spec_confirm_chat(chat, user), user }
                    } else {
                        Dispatch::Ignored
                    }
                },
                None => Dispatch::Ignored,
            }
        },
    }
}

/// Resolves the chat a confirmation reply goes to.
pub fn confirm_chat(chat: &Option<i64>, user: u64) -> (c: i64)
    ensures
        c == spec_confirm_chat(*chat, user),
{
    match chat {
        Some(c) => *c,
        None => {
            if user <= i64::MAX as u64 {
                user as i64
            } else {
                0
            }
        },
    }
}

/// Classifies one inbound event. A callback press whose payload is not
/// exactly the reserved confirmation token, and a message without the
/// onboarding command, are both `Ignored`: for those the router issues
/// no acknowledgement and no reply.
pub fn route(event: InboundEvent) -> (d: Dispatch)
    ensures
        d == spec_route(event),
{
    match event {
        InboundEvent::Command { name, chat, user: _ } => {
            if str_eq(name.as_str(), messages::START_COMMAND) {
                Dispatch::Start { chat }
            } else {
                Dispatch::Ignored
            }
        },
        InboundEvent::CallbackPress { token, chat, user, payload } => {
            match &payload {
                Some(p) => {
                    if str_eq(p.as_str(), messages::DONE_CALLBACK_DATA) {
                        Dispatch::Confirm { token, chat: confirm_chat(&chat, user), user }
                    } else {
                        Dispatch::Ignored
                    }
                },
                None => Dispatch::Ignored,
            }
        },
    }
}

} // verus!
