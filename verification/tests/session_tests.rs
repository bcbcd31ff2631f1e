use gpterm::session::{App, CommandStatus, InputMode, SessionAction, UiEvent};
use gpterm::turn::{MessageType, Role};

const FALLBACK: &str =
    "something went wrong in the request (probably problem parsing the response), try again";

fn app() -> App {
    let mut a = App::new(10, 4);
    a.set_username("me".to_string());
    a.set_api_manager("test-token".to_string());
    a
}

fn type_text(a: &mut App, text: &str) {
    for c in text.chars() {
        assert!(matches!(a.handle_event(UiEvent::Key(c)), SessionAction::Nothing));
    }
}

#[test]
fn mode_transitions_cover_every_event() {
    let mut a = app();
    assert!(matches!(a.input_mode(), InputMode::Normal));

    // unrecognized events in normal mode are no-ops
    a.handle_event(UiEvent::Backspace);
    a.handle_event(UiEvent::Enter);
    a.handle_event(UiEvent::Esc);
    a.handle_event(UiEvent::Key('z'));
    assert!(matches!(a.input_mode(), InputMode::Normal));

    a.handle_event(UiEvent::Key('i'));
    assert!(matches!(a.input_mode(), InputMode::Insert));
    a.handle_event(UiEvent::Esc);
    assert!(matches!(a.input_mode(), InputMode::Normal));

    a.handle_event(UiEvent::Key(':'));
    assert!(matches!(a.input_mode(), InputMode::Command));
    assert_eq!(a.get_command(), ":");
    a.handle_event(UiEvent::Esc);
    assert!(matches!(a.input_mode(), InputMode::Normal));
    assert_eq!(a.get_command(), "");

    // resize is handled in every mode and keeps the mode
    a.handle_event(UiEvent::Key('i'));
    a.handle_event(UiEvent::Resize(20, 10));
    assert!(matches!(a.input_mode(), InputMode::Insert));
}

#[test]
fn quit_is_only_answered_in_normal_mode() {
    let mut a = app();
    assert!(matches!(a.handle_event(UiEvent::Key('q')), SessionAction::Quit));
    a.handle_event(UiEvent::Key('i'));
    assert!(matches!(a.handle_event(UiEvent::Key('q')), SessionAction::Nothing));
    assert_eq!(a.get_display_input(), "q");
}

#[test]
fn append_order_holds_over_submit_cycles() {
    let mut a = app();
    let queries = ["first", "second", "third"];
    for (n, q) in queries.iter().enumerate() {
        a.handle_event(UiEvent::Key('i'));
        type_text(&mut a, q);
        let action = a.handle_event(UiEvent::Enter);
        assert!(matches!(action, SessionAction::Submit));
        a.apply_completion(None);
        // two turns per submit, in submit order
        assert_eq!(a.log.len(), 2 * (n + 1));
    }
    let turns = a.log.snapshot();
    for (n, q) in queries.iter().enumerate() {
        assert!(matches!(turns[2 * n].role, Role::User));
        assert_eq!(turns[2 * n].body, *q);
        assert!(matches!(turns[2 * n + 1].role, Role::Assistant));
        assert_eq!(turns[2 * n + 1].body, FALLBACK);
    }
    assert_eq!(a.content.len(), 6);
}

#[test]
fn submit_moves_the_buffer_and_returns_to_normal_mode() {
    let mut a = app();
    a.handle_event(UiEvent::Key('i'));
    type_text(&mut a, "hi");
    a.handle_event(UiEvent::Enter);
    assert!(matches!(a.input_mode(), InputMode::Normal));
    assert_eq!(a.get_display_input(), "");
    assert_eq!(a.get_input(), "hi");
    assert_eq!(a.log.len(), 1);
    assert!(matches!(a.log.snapshot()[0].role, Role::User));
    assert!(matches!(a.log.snapshot()[0].origin, MessageType::Query));
    // the shown message carries the username
    assert_eq!(a.content[0].get_sender().as_str(), "me");
    assert_eq!(a.content[0].get_body().as_str(), "hi");
}

#[test]
fn cancel_preserves_the_compose_buffer() {
    let mut a = app();
    a.handle_event(UiEvent::Key('i'));
    type_text(&mut a, "draft");
    a.handle_event(UiEvent::Esc);
    assert!(matches!(a.input_mode(), InputMode::Normal));
    assert_eq!(a.get_display_input(), "draft");
    assert_eq!(a.log.len(), 0);
}

#[test]
fn backspace_edits_the_compose_buffer() {
    let mut a = app();
    a.handle_event(UiEvent::Key('i'));
    type_text(&mut a, "ab");
    a.handle_event(UiEvent::Backspace);
    assert_eq!(a.get_display_input(), "a");
    a.handle_event(UiEvent::Backspace);
    a.handle_event(UiEvent::Backspace);
    assert_eq!(a.get_display_input(), "");
}

#[test]
fn every_command_submission_reports_not_found() {
    let mut a = app();
    a.handle_event(UiEvent::Key(':'));
    type_text(&mut a, "wq");
    assert_eq!(a.get_command(), ":wq");
    a.handle_event(UiEvent::Backspace);
    assert_eq!(a.get_command(), ":w");
    a.handle_event(UiEvent::Enter);
    assert!(matches!(a.input_mode(), InputMode::Normal));
    assert!(matches!(a.command_status(), CommandStatus::Error));
    assert_eq!(a.get_command(), "Error: Command not found");
    assert!(a.command_active());
    a.reset_command();
    assert!(!a.command_active());
    assert!(matches!(a.command_status(), CommandStatus::Okay));
}

#[test]
fn failed_completions_are_shown_under_the_error_label() {
    let mut a = app();
    a.handle_event(UiEvent::Key('i'));
    type_text(&mut a, "hi");
    a.handle_event(UiEvent::Enter);
    a.apply_completion(None);
    assert_eq!(a.content[1].get_sender().as_str(), "YAS - your average system");
    assert_eq!(a.content[1].get_body().as_str(), FALLBACK);
}

#[test]
fn successful_completions_are_shown_under_the_model_label() {
    let mut a = app();
    a.handle_event(UiEvent::Key('i'));
    type_text(&mut a, "hi");
    a.handle_event(UiEvent::Enter);
    let body = "{\"choices\":[{\"message\":{\"role\":\"assistant\",\"content\":\"yo\"}}]}";
    a.apply_completion(Some(body));
    assert_eq!(a.content[1].get_sender().as_str(), "gpt-3.5-turbo");
    assert_eq!(a.content[1].get_body().as_str(), "yo");
    assert_eq!(a.log.snapshot()[1].body, "yo");
}

#[test]
fn completion_scrolls_to_the_bottom() {
    let mut a = app();
    // viewport: 10 columns, 4 rows
    a.handle_event(UiEvent::Key('i'));
    type_text(&mut a, "one");
    a.handle_event(UiEvent::Enter);
    a.apply_completion(None);
    // content: query (1+2 rows) + long fallback answer; well past 4 rows
    assert_eq!(a.get_scroll(), a.max_offset);
    assert!(a.max_offset > 0);
    assert_eq!(a.get_input(), "");
}

#[test]
fn scroll_steps_stay_inside_the_clamped_range() {
    let mut a = app();
    a.handle_event(UiEvent::Key('i'));
    type_text(&mut a, "one");
    a.handle_event(UiEvent::Enter);
    a.apply_completion(None);
    let max = a.max_offset;
    assert_eq!(a.get_scroll(), max);
    a.handle_event(UiEvent::Key('k'));
    assert_eq!(a.get_scroll(), max);
    a.handle_event(UiEvent::Key('j'));
    assert_eq!(a.get_scroll(), max - 1);
    for _ in 0..(max + 5) {
        a.handle_event(UiEvent::Key('j'));
    }
    assert_eq!(a.get_scroll(), 0);
    a.handle_event(UiEvent::Key('j'));
    assert_eq!(a.get_scroll(), 0);
}

#[test]
fn resize_reclamps_the_scroll_offset() {
    let mut a = app();
    a.handle_event(UiEvent::Key('i'));
    type_text(&mut a, "one");
    a.handle_event(UiEvent::Enter);
    a.apply_completion(None);
    assert!(a.get_scroll() > 0);
    // a huge viewport fits everything: the offset collapses to zero
    a.handle_event(UiEvent::Resize(500, 500));
    assert_eq!(a.max_offset, 0);
    assert_eq!(a.get_scroll(), 0);
}

#[test]
fn get_content_renders_rule_label_and_body_lines() {
    let mut a = app();
    a.handle_event(UiEvent::Resize(4, 10));
    a.handle_event(UiEvent::Key('i'));
    type_text(&mut a, "hi");
    a.handle_event(UiEvent::Enter);
    let lines = a.get_content();
    assert_eq!(lines, vec!["────", "me:", "hi"]);
}

#[test]
fn build_request_resends_the_whole_chat() {
    let mut a = app();
    a.handle_event(UiEvent::Key('i'));
    type_text(&mut a, "hi");
    a.handle_event(UiEvent::Enter);
    assert_eq!(
        a.build_request(),
        "{\"model\":\"gpt-3.5-turbo\",\"messages\":[{\"role\":\"user\",\"content\":\"hi\"}]}"
    );
}

#[test]
fn update_input_moves_the_composed_text() {
    let mut a = app();
    a.push_input('x');
    a.push_input('y');
    a.update_input();
    assert_eq!(a.get_input(), "xy");
    assert_eq!(a.get_display_input(), "");
}
