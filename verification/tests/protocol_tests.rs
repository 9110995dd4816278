use rustykelvinbot::err::RKBServiceRequestErr;
use rustykelvinbot::token::RKBTokens;
use rustykelvinbot::RKBServiceRequest;

fn request() -> RKBServiceRequest {
    let tokens = RKBTokens::new(String::new()).unwrap();
    RKBServiceRequest::new(false, false, "?chat hi".to_string(), 1, tokens)
}

#[test]
fn fresh_send_of_empty_reply_is_the_empty_send_error() {
    assert!(matches!(
        request().try_send_message(String::new()),
        Err(RKBServiceRequestErr::DiscordMessageSendEmpty)
    ));
}

#[test]
fn fresh_send_chunks_in_order() {
    let text = "a".repeat(2000) + &"b".repeat(2000) + "c";
    let segments = request().try_send_message(text).unwrap();
    assert_eq!(segments.len(), 3);
    assert_eq!(segments[0], "a".repeat(2000));
    assert_eq!(segments[1], "b".repeat(2000));
    assert_eq!(segments[2], "c");
}

#[test]
fn edit_of_empty_result_is_the_empty_send_error() {
    assert!(matches!(
        request().try_edit_message(""),
        Err(RKBServiceRequestErr::DiscordMessageSendEmpty)
    ));
}

#[test]
fn edit_then_append_order_for_three_segments() {
    // One placeholder send has already happened; the delivery plan then
    // edits the placeholder to the first segment and appends the rest in
    // order: Send(placeholder), Edit(seg1), Send(seg2), Send(seg3).
    let text = "x".repeat(2000) + &"y".repeat(2000) + "z";
    let (first, rest) = request().try_edit_message(&text).unwrap();
    assert_eq!(first, "x".repeat(2000));
    assert_eq!(rest.len(), 2);
    assert_eq!(rest[0], "y".repeat(2000));
    assert_eq!(rest[1], "z");
}

#[test]
fn edit_of_short_result_has_no_appended_send() {
    let (first, rest) = request().try_edit_message("done").unwrap();
    assert_eq!(first, "done");
    assert!(rest.is_empty());
}

#[test]
fn nonaction_replies_with_its_fixed_text() {
    let segments = request().nonaction().unwrap();
    assert_eq!(segments.len(), 1);
    assert_eq!(segments[0], "non-action. 🎣");
}

#[test]
fn pinned_nonaction_replies_with_its_fixed_text() {
    let segments = request().nonaction_pinned().unwrap();
    assert_eq!(segments.len(), 1);
    assert_eq!(segments[0], "Pinned message is a non-action. 🎣");
}

#[test]
fn help_plan_is_the_usage_text() {
    let segments = request().help().unwrap();
    assert_eq!(segments.len(), 1);
    assert!(segments[0].starts_with("```USAGE: \n?[ACTION] [CONTEXT]"));
    assert!(segments[0].contains("TIMER"));
}

#[test]
fn error_messages_are_plain_language() {
    assert_eq!(
        RKBServiceRequestErr::Unknown.message(),
        "error caused by unknown means"
    );
    assert_eq!(
        RKBServiceRequestErr::DiscordMessageSendEmpty.message(),
        "attempted to send no messages"
    );
    assert_eq!(
        RKBServiceRequestErr::DiscordMessageSendFailure("x".to_string()).message(),
        "failed to send discord message"
    );
    assert_eq!(
        RKBServiceRequestErr::DiscordMissingPermissions.message(),
        "missing permissions"
    );
    assert_eq!(
        RKBServiceRequestErr::Token("k".to_string()).message(),
        "token keys error"
    );
}
