use gpterm::store::{ConversationLog, LoadError};
use gpterm::turn::{MessageType, Role, Turn};

fn turn(role: Role, body: &str, origin: MessageType) -> Turn {
    Turn::new(role, body.to_string(), origin)
}

#[test]
fn visible_turns_hides_system_turns() {
    let mut log = ConversationLog::new();
    log.append(turn(Role::System, "x", MessageType::Query));
    log.append(turn(Role::User, "hi", MessageType::Query));
    log.append(turn(Role::Assistant, "yo", MessageType::Answer));
    let visible = log.visible_turns();
    assert_eq!(visible.len(), 2);
    assert!(matches!(visible[0].role, Role::User));
    assert_eq!(visible[0].body, "hi");
    assert!(matches!(visible[1].role, Role::Assistant));
    assert_eq!(visible[1].body, "yo");
}

#[test]
fn visible_turns_of_empty_log_is_empty() {
    let log = ConversationLog::new();
    assert_eq!(log.visible_turns().len(), 0);
    assert_eq!(log.len(), 0);
}

#[test]
fn save_writes_canonical_form() {
    let mut log = ConversationLog::new();
    log.append(turn(Role::User, "hi", MessageType::Query));
    assert_eq!(log.save(), "[{\"role\":\"user\",\"content\":\"hi\"}]");
}

#[test]
fn save_escapes_special_characters() {
    let mut log = ConversationLog::new();
    log.append(turn(Role::Assistant, "a\"b\\c\nd", MessageType::Answer));
    assert_eq!(
        log.save(),
        "[{\"role\":\"assistant\",\"content\":\"a\\\"b\\\\c\\nd\"}]"
    );
}

#[test]
fn save_of_empty_log_is_empty_array() {
    let log = ConversationLog::new();
    assert_eq!(log.save(), "[]");
}

#[test]
fn round_trip_preserves_roles_and_bodies_in_order() {
    let mut log = ConversationLog::new();
    log.append(turn(Role::System, "be helpful", MessageType::Query));
    log.append(turn(Role::User, "hi\nthere", MessageType::Query));
    log.append(turn(Role::Assistant, "quote \" and slash \\", MessageType::Answer));
    let saved = log.save();

    let mut reloaded = ConversationLog::new();
    assert!(reloaded.load(&saved).is_ok());
    assert_eq!(reloaded.len(), 3);
    let a = log.snapshot();
    let b = reloaded.snapshot();
    for i in 0..3 {
        assert_eq!(a[i].role, b[i].role);
        assert_eq!(a[i].body, b[i].body);
    }
}

#[test]
fn load_replaces_the_whole_log() {
    let mut log = ConversationLog::new();
    log.append(turn(Role::User, "old", MessageType::Query));
    assert!(log.load("[{\"role\":\"user\",\"content\":\"new\"}]").is_ok());
    assert_eq!(log.len(), 1);
    assert_eq!(log.snapshot()[0].body, "new");
}

#[test]
fn load_derives_display_origin_from_role() {
    let mut log = ConversationLog::new();
    let text = "[{\"role\":\"user\",\"content\":\"q\"},{\"role\":\"assistant\",\"content\":\"a\"}]";
    assert!(log.load(text).is_ok());
    assert!(matches!(log.snapshot()[0].origin, MessageType::Query));
    assert!(matches!(log.snapshot()[1].origin, MessageType::Answer));
}

#[test]
fn load_maps_unknown_roles_to_assistant() {
    let mut log = ConversationLog::new();
    assert!(log.load("[{\"role\":\"oracle\",\"content\":\"z\"}]").is_ok());
    assert!(matches!(log.snapshot()[0].role, Role::Assistant));
}

#[test]
fn load_of_empty_array_gives_empty_log() {
    let mut log = ConversationLog::new();
    log.append(turn(Role::User, "old", MessageType::Query));
    assert!(log.load("[]").is_ok());
    assert_eq!(log.len(), 0);
}

#[test]
fn load_accepts_ordinary_formatting() {
    let mut log = ConversationLog::new();
    let text = "[\n  { \"role\": \"system\", \"content\": \"be helpful\" },\n  { \"content\": \"hi\", \"role\": \"user\", \"name\": \"me\" }\n]\n";
    assert!(log.load(text).is_ok());
    assert_eq!(log.len(), 2);
    assert!(matches!(log.snapshot()[0].role, Role::System));
    assert_eq!(log.snapshot()[0].body, "be helpful");
    assert!(matches!(log.snapshot()[1].role, Role::User));
    assert_eq!(log.snapshot()[1].body, "hi");
}

#[test]
fn round_trip_preserves_control_characters() {
    let mut log = ConversationLog::new();
    log.append(turn(Role::User, "bell \u{7} esc \u{1b} tab\there", MessageType::Query));
    let saved = log.save();
    assert!(saved.contains("\\u0007"));
    assert!(saved.contains("\\u001b"));
    let mut reloaded = ConversationLog::new();
    assert!(reloaded.load(&saved).is_ok());
    assert_eq!(reloaded.snapshot()[0].body, "bell \u{7} esc \u{1b} tab\there");
}

#[test]
fn load_reads_unicode_escapes() {
    let mut log = ConversationLog::new();
    let text = "[{\"role\":\"user\",\"content\":\"\\u0041\\u00e9 \\uD83D\\uDE00\"}]";
    assert!(log.load(text).is_ok());
    assert_eq!(log.snapshot()[0].body, "A\u{e9} \u{1F600}");
}

#[test]
fn load_rejects_broken_unicode_escapes() {
    let mut log = ConversationLog::new();
    for bad in [
        // too short, bad digits, a lone high surrogate, a lone low surrogate
        "[{\"role\":\"user\",\"content\":\"\\u00\"}]",
        "[{\"role\":\"user\",\"content\":\"\\uzzzz\"}]",
        "[{\"role\":\"user\",\"content\":\"\\uD83D\"}]",
        "[{\"role\":\"user\",\"content\":\"\\uD83D\\u0041\"}]",
        "[{\"role\":\"user\",\"content\":\"\\uDE00\"}]",
    ] {
        assert_eq!(log.load(bad), Err(LoadError::Malformed));
    }
}

#[test]
fn load_rejects_malformed_text_and_keeps_the_log() {
    let mut log = ConversationLog::new();
    log.append(turn(Role::User, "kept", MessageType::Query));
    for bad in [
        "",
        "not a transcript",
        "[",
        "[]]",
        "[{\"role\":\"user\"}]",
        "[{\"role\":\"user\",\"content\":\"x\"},]",
        "[{\"role\":\"user\",\"content\":\"x\\q\"}]",
    ] {
        let r = log.load(bad);
        assert_eq!(r, Err(LoadError::Malformed));
        assert_eq!(log.len(), 1);
        assert_eq!(log.snapshot()[0].body, "kept");
    }
}
