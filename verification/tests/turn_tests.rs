use gpterm::turn::{ChatMessage, DisplayMessage, MessageType, Role, Turn};

#[test]
fn display_message_keeps_its_parts() {
    let m = DisplayMessage::from("who".to_string(), "what".to_string(), MessageType::Query);
    assert_eq!(m.get_sender().as_str(), "who");
    assert_eq!(m.get_body().as_str(), "what");
    assert!(matches!(m.message_type, MessageType::Query));
}

#[test]
fn error_messages_carry_the_fixed_sender() {
    let m = DisplayMessage::error("oops".to_string());
    assert_eq!(m.get_sender().as_str(), "YAS - your average system");
    assert_eq!(m.get_body().as_str(), "oops");
    assert!(matches!(m.message_type, MessageType::Answer));
}

#[test]
fn rehydrated_turns_derive_their_origin() {
    let t = Turn::of_record(Role::User, "q".to_string());
    assert!(matches!(t.origin, MessageType::Query));
    let t = Turn::of_record(Role::System, "s".to_string());
    assert!(matches!(t.origin, MessageType::Query));
    let t = Turn::of_record(Role::Assistant, "a".to_string());
    assert!(matches!(t.origin, MessageType::Answer));
}

#[test]
fn chat_message_keeps_role_and_content() {
    let m = ChatMessage::from("user".to_string(), "hello".to_string());
    assert_eq!(m.get_role().as_str(), "user");
    assert_eq!(m.get_content().as_str(), "hello");
}

#[test]
fn body_lines_of_a_display_message_follow_the_wrap_rule() {
    let m = DisplayMessage::from("s".to_string(), "hello world".to_string(), MessageType::Answer);
    assert_eq!(m.get_body_lines(5), 3);
}
