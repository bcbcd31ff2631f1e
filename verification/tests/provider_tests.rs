use gpterm::provider::{
    decode_chat_response, decode_text_response, ApiCall, ApiManager, CallType, ChatApiRequest,
};
use gpterm::store::ConversationLog;
use gpterm::turn::{ChatMessage, MessageType, Role, Turn};

const FALLBACK: &str =
    "something went wrong in the request (probably problem parsing the response), try again";

fn chat_manager() -> ApiManager {
    ApiManager::new("test-token".to_string())
}

fn text_manager() -> ApiManager {
    let mut m = chat_manager();
    m.call_type = CallType::Text;
    m
}

#[test]
fn transport_failure_always_yields_the_fixed_fallback_turn() {
    let t = chat_manager().complete(None);
    assert!(matches!(t.role, Role::Assistant));
    assert!(matches!(t.origin, MessageType::Answer));
    assert_eq!(t.body, FALLBACK);

    let t2 = text_manager().complete(None);
    assert_eq!(t2.body, FALLBACK);
}

#[test]
fn decode_failure_yields_the_fallback_turn() {
    let t = chat_manager().complete(Some("this is not a response"));
    assert_eq!(t.body, FALLBACK);
    let t2 = text_manager().complete(Some("{\"model\":\"m\"}"));
    assert_eq!(t2.body, FALLBACK);
}

#[test]
fn a_response_without_candidates_yields_the_fallback_turn() {
    let t = chat_manager().complete(Some("{\"choices\":[]}"));
    assert_eq!(t.body, FALLBACK);
    let t2 = text_manager().complete(Some("{\"model\":\"m\",\"choices\":[]}"));
    assert_eq!(t2.body, FALLBACK);
}

#[test]
fn a_chat_completion_takes_the_first_candidates_message() {
    let body = "{\"id\":\"c-1\",\"object\":\"chat.completion\",\"created\":1700000000,\
                \"choices\":[{\"index\":0,\"message\":{\"role\":\"assistant\",\
                \"content\":\"hello there\"},\"finish_reason\":\"stop\"},\
                {\"index\":1,\"message\":{\"role\":\"assistant\",\"content\":\"ignored\"},\
                \"finish_reason\":\"stop\"}],\"usage\":{\"total_tokens\":12}}";
    let t = chat_manager().complete(Some(body));
    assert!(matches!(t.role, Role::Assistant));
    assert_eq!(t.body, "hello there");
}

#[test]
fn a_text_completion_takes_the_first_candidates_text() {
    let body = "{\"model\":\"text-davinci-003\",\"choices\":[{\"text\":\"alpha\",\
                \"index\":0,\"logprobs\":null,\"finish_reason\":\"length\"},\
                {\"text\":\"beta\"}]}";
    let t = text_manager().complete(Some(body));
    assert_eq!(t.body, "alpha");
}

#[test]
fn response_decoding_tolerates_whitespace() {
    let body = "{\n  \"id\": \"c\",\n  \"choices\": [\n    {\n      \"message\": {\n        \
                \"role\": \"assistant\",\n        \"content\": \"spaced out\"\n      }\n    }\n  ]\n}\n";
    let t = chat_manager().complete(Some(body));
    assert_eq!(t.body, "spaced out");
}

#[test]
fn response_decoding_unescapes_content() {
    let body = "{\"choices\":[{\"message\":{\"role\":\"assistant\",\
                \"content\":\"line1\\nline2 \\\"q\\\" \\\\ \\/ \\t\"}}]}";
    let t = chat_manager().complete(Some(body));
    assert_eq!(t.body, "line1\nline2 \"q\" \\ / \t");
}

#[test]
fn response_decoding_reads_unicode_escapes() {
    let body = "{\"choices\":[{\"message\":{\"role\":\"assistant\",\"content\":\"caf\\u00e9 \\ud83d\\ude00\"}}]}";
    let t = chat_manager().complete(Some(body));
    assert_eq!(t.body, "caf\u{e9} \u{1F600}");
}

#[test]
fn decode_text_response_exposes_model_and_choices() {
    let body = "{\"model\":\"davinci\",\"choices\":[{\"text\":\"a\"},{\"text\":\"b\"}]}";
    let resp = decode_text_response(body).expect("decodes");
    assert_eq!(resp.get_model(), "davinci");
    let choices = resp.choices();
    assert_eq!(choices.len(), 2);
    assert_eq!(choices[0].get_answer(), "a");
    assert_eq!(choices[1].get_answer(), "b");
}

#[test]
fn decode_chat_response_exposes_the_first_choice() {
    let body = "{\"choices\":[{\"message\":{\"role\":\"assistant\",\"content\":\"m\"}}]}";
    let resp = decode_chat_response(body).expect("decodes");
    let msg = resp.get_first_choice().get_message();
    assert_eq!(msg.get_role().as_str(), "assistant");
    assert_eq!(msg.get_content().as_str(), "m");
}

#[test]
fn decode_rejects_trailing_garbage() {
    assert!(decode_chat_response("{\"choices\":[]} extra").is_none());
}

#[test]
fn text_call_payload_is_canonical() {
    let call = ApiCall::from("m\"x".to_string(), "say \"hi\"\n".to_string(), 0, 7);
    assert_eq!(
        call.payload(),
        "{\"model\":\"m\\\"x\",\"prompt\":\"say \\\"hi\\\"\\n\",\"temperature\":0,\"max_tokens\":7}"
    );
    assert_eq!(call.get_model(), "m\"x");
    assert_eq!(call.get_prompt(), "say \"hi\"\n");
}

#[test]
fn text_call_payload_writes_negative_token_counts() {
    let call = ApiCall::from("m".to_string(), "p".to_string(), 255, -12);
    assert_eq!(
        call.payload(),
        "{\"model\":\"m\",\"prompt\":\"p\",\"temperature\":255,\"max_tokens\":-12}"
    );
}

#[test]
fn chat_request_payload_carries_the_whole_conversation() {
    let messages = vec![
        ChatMessage::from("system".to_string(), "be brief".to_string()),
        ChatMessage::from("user".to_string(), "hi".to_string()),
    ];
    let req = ChatApiRequest::from("gpt-3.5-turbo".to_string(), messages);
    assert_eq!(
        req.payload(),
        "{\"model\":\"gpt-3.5-turbo\",\"messages\":[{\"role\":\"system\",\"content\":\"be brief\"},\
         {\"role\":\"user\",\"content\":\"hi\"}]}"
    );
}

#[test]
fn a_shown_text_answer_carries_the_responses_model_name() {
    let body = "{\"model\":\"text-davinci-003\",\"choices\":[{\"text\":\"alpha\"}]}";
    let (t, shown) = text_manager().complete_shown(Some(body));
    assert_eq!(t.body, "alpha");
    assert_eq!(shown.get_sender().as_str(), "text-davinci-003");
    assert_eq!(shown.get_body().as_str(), "alpha");
    assert!(matches!(shown.message_type, MessageType::Answer));

    // the label is the response's own, not the configured chat model
    let body2 = "{\"model\":\"curie\",\"choices\":[{\"text\":\"beta\"}]}";
    let (_, shown2) = text_manager().complete_shown(Some(body2));
    assert_eq!(shown2.get_sender().as_str(), "curie");
}

#[test]
fn a_shown_chat_answer_carries_the_selected_model_name() {
    let body = "{\"choices\":[{\"message\":{\"role\":\"assistant\",\"content\":\"yo\"}}]}";
    let (_, shown) = chat_manager().complete_shown(Some(body));
    assert_eq!(shown.get_sender().as_str(), "gpt-3.5-turbo");
}

#[test]
fn a_shown_failure_carries_the_error_label() {
    let (_, shown) = text_manager().complete_shown(None);
    assert_eq!(shown.get_sender().as_str(), "YAS - your average system");
    assert_eq!(shown.get_body().as_str(), FALLBACK);
}

#[test]
fn display_chat_translates_and_hides_system_turns() {
    let m = chat_manager();
    let mut log = ConversationLog::new();
    log.append(Turn::new(Role::System, "x".to_string(), MessageType::Query));
    log.append(Turn::new(Role::User, "hi".to_string(), MessageType::Query));
    log.append(Turn::new(Role::Assistant, "yo".to_string(), MessageType::Answer));
    let shown = m.get_display_chat(&log);
    assert_eq!(shown.len(), 2);
    assert_eq!(shown[0].get_sender().as_str(), "user");
    assert_eq!(shown[0].get_body().as_str(), "hi");
    assert!(matches!(shown[0].message_type, MessageType::Query));
    assert_eq!(shown[1].get_sender().as_str(), "gpt-3.5-turbo");
    assert_eq!(shown[1].get_body().as_str(), "yo");
    assert!(matches!(shown[1].message_type, MessageType::Answer));
}

#[test]
fn new_manager_defaults_to_the_chat_backend() {
    let m = chat_manager();
    assert!(matches!(m.call_type, CallType::Chat));
    assert_eq!(m.get_token(), "test-token");
    assert_eq!(m.selected_model, "gpt-3.5-turbo");
}
