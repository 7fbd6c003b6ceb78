use channel_gate::router::{confirm_chat, route, Dispatch, InboundEvent};

#[test]
fn start_command_routes_to_start_handler() {
    let event = InboundEvent::Command {
        name: String::from("/start"),
        chat: 42,
        user: 7,
    };
    match route(event) {
        Dispatch::Start { chat } => assert_eq!(chat, 42),
        _ => panic!("expected a start dispatch"),
    }
}

#[test]
fn other_command_is_ignored() {
    let event = InboundEvent::Command {
        name: String::from("/help"),
        chat: 42,
        user: 7,
    };
    assert!(matches!(route(event), Dispatch::Ignored));
}

#[test]
fn confirmation_token_routes_to_confirmation_handler() {
    let event = InboundEvent::CallbackPress {
        token: String::from("cbq-1"),
        chat: Some(42),
        user: 7,
        payload: Some(String::from("done")),
    };
    match route(event) {
        Dispatch::Confirm { token, chat, user } => {
            assert_eq!(token, "cbq-1");
            assert_eq!(chat, 42);
            assert_eq!(user, 7);
        },
        _ => panic!("expected a confirm dispatch"),
    }
}

#[test]
fn other_callback_payload_is_ignored() {
    let event = InboundEvent::CallbackPress {
        token: String::from("cbq-1"),
        chat: Some(42),
        user: 7,
        payload: Some(String::from("done ")),
    };
    assert!(matches!(route(event), Dispatch::Ignored));
}

#[test]
fn missing_callback_payload_is_ignored() {
    let event = InboundEvent::CallbackPress {
        token: String::from("cbq-1"),
        chat: Some(42),
        user: 7,
        payload: None,
    };
    assert!(matches!(route(event), Dispatch::Ignored));
}

#[test]
fn confirm_chat_prefers_the_message_chat() {
    assert_eq!(confirm_chat(&Some(-100123), 7), -100123);
}

#[test]
fn confirm_chat_falls_back_to_the_user() {
    assert_eq!(confirm_chat(&None, 7), 7);
    assert_eq!(confirm_chat(&None, u64::MAX), 0);
}
