use rustykelvinbot::action::deepseek::{
    chat_body, deepseek_response_text, placeholder_text, reasoning_body, to_deepseek_message,
    Error, Role, SYSTEM_PROMPT,
};
use rustykelvinbot::err::RKBServiceRequestErr;

#[test]
fn bot_turn_keeps_its_text_as_assistant() {
    let message = to_deepseek_message(true, "?chat the answer".to_string());
    assert_eq!(message.role, Role::Assistant);
    assert_eq!(message.content, "?chat the answer");
}

#[test]
fn user_turn_is_stripped_to_its_argument() {
    let message = to_deepseek_message(false, "?chat what is rust".to_string());
    assert_eq!(message.role, Role::User);
    assert_eq!(message.content, "what is rust");
}

#[test]
fn chat_body_reverses_history_and_prepends_the_system_prompt() {
    // History arrives newest first; the request body is oldest first.
    let history = vec![
        (true, "newest bot reply".to_string()),
        (false, "?chat oldest question".to_string()),
    ];
    let body = chat_body(history, None);
    assert_eq!(body.len(), 3);
    assert_eq!(body[0].role, Role::System);
    assert_eq!(body[0].content, SYSTEM_PROMPT);
    assert_eq!(body[1].role, Role::User);
    assert_eq!(body[1].content, "oldest question");
    assert_eq!(body[2].role, Role::Assistant);
    assert_eq!(body[2].content, "newest bot reply");
}

#[test]
fn chat_body_puts_the_pinned_instruction_first() {
    let history = vec![(false, "?chat hi".to_string())];
    let body = chat_body(history, Some("be terse".to_string()));
    assert_eq!(body.len(), 3);
    assert_eq!(body[0].role, Role::System);
    assert_eq!(body[0].content, "be terse");
    assert_eq!(body[1].role, Role::System);
    assert_eq!(body[1].content, SYSTEM_PROMPT);
    assert_eq!(body[2].content, "hi");
}

#[test]
fn reasoning_body_keeps_order_and_has_no_system_prompt() {
    let history = vec![(false, "?reason why".to_string())];
    let body = reasoning_body(history);
    assert_eq!(body.len(), 1);
    assert_eq!(body[0].role, Role::User);
    assert_eq!(body[0].content, "why");
}

#[test]
fn placeholder_is_the_thinking_marker() {
    assert_eq!(placeholder_text(), "*..*");
}

#[test]
fn present_completion_text_is_passed_through() {
    assert_eq!(
        deepseek_response_text(Some("an answer".to_string())).unwrap(),
        "an answer"
    );
}

#[test]
fn absent_completion_is_the_deepseek_error() {
    assert!(matches!(
        deepseek_response_text(None),
        Err(RKBServiceRequestErr::Deepseek(Error::DeepseekError))
    ));
}

#[test]
fn deepseek_error_messages() {
    assert_eq!(Error::Placeholder.message(), "placeholder");
    assert_eq!(Error::DeepseekError.message(), "invalid deepseek response");
}
