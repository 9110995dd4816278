use rustykelvinbot::err::RKBServiceRequestErr;
use rustykelvinbot::token::RKBTokens;
use rustykelvinbot::{Decision, Dispatch, PinnedDecision, RKBServiceRequest};

fn human_request(content: &str) -> RKBServiceRequest {
    let tokens = RKBTokens::new(String::new()).unwrap();
    RKBServiceRequest::new(false, false, content.to_string(), 1, tokens)
}

fn bot_request(content: &str) -> RKBServiceRequest {
    let tokens = RKBTokens::new(String::new()).unwrap();
    RKBServiceRequest::new(true, false, content.to_string(), 1, tokens)
}

#[test]
fn routes_every_defined_action_token() {
    assert_eq!(human_request("?help").handle_message(), Dispatch::Help);
    assert_eq!(human_request("?").handle_message(), Dispatch::Help);
    assert_eq!(human_request("? hi").handle_message(), Dispatch::Help);
    assert_eq!(human_request("?weather").handle_message(), Dispatch::Weather);
    assert_eq!(human_request("?temperature").handle_message(), Dispatch::Weather);
    assert_eq!(human_request("?temp now").handle_message(), Dispatch::Weather);
    assert_eq!(human_request("?geo").handle_message(), Dispatch::Geo);
    assert_eq!(human_request("?chat what is rust").handle_message(), Dispatch::Chat);
    assert_eq!(human_request("?reason hard question").handle_message(), Dispatch::Reason);
    assert_eq!(human_request("?timer 5m").handle_message(), Dispatch::Timer);
}

#[test]
fn unrecognized_token_routes_to_nonaction_only() {
    assert_eq!(human_request("?frobnicate").handle_message(), Dispatch::NonAction);
    assert_eq!(human_request("?Help").handle_message(), Dispatch::NonAction);
    assert_eq!(human_request("?TIMER 5m").handle_message(), Dispatch::NonAction);
}

#[test]
fn unprefixed_message_is_no_command() {
    assert_eq!(human_request("hello").handle_message(), Dispatch::NotCommand);
    assert_eq!(human_request("").handle_message(), Dispatch::NotCommand);
}

#[test]
fn pinned_chat_directive_takes_priority_over_normal_dispatch() {
    let request = human_request("hello");
    let pins = vec!["?chat be terse".to_string()];
    match request.decide_message(&pins) {
        Decision::Pinned(PinnedDecision::Chat(preprompt)) => {
            assert_eq!(preprompt, "be terse");
        }
        other => panic!("expected pinned chat directive, got {:?}", other),
    }
}

#[test]
fn first_matching_pin_wins() {
    let request = human_request("?timer 5m");
    let pins = vec![
        "just a note".to_string(),
        "?chat answer in rhyme".to_string(),
        "?chat ignored later pin".to_string(),
    ];
    match request.decide_message(&pins) {
        Decision::Pinned(PinnedDecision::Chat(preprompt)) => {
            assert_eq!(preprompt, "answer in rhyme");
        }
        other => panic!("expected pinned chat directive, got {:?}", other),
    }
}

#[test]
fn pinned_non_chat_command_is_a_pinned_nonaction() {
    let request = human_request("hello");
    let pins = vec!["?timer 5m".to_string()];
    assert!(matches!(
        request.decide_message(&pins),
        Decision::Pinned(PinnedDecision::NonActionPinned)
    ));
}

#[test]
fn without_pinned_directive_normal_dispatch_runs() {
    let request = human_request("?geo");
    let pins = vec!["just a note".to_string()];
    assert!(matches!(
        request.decide_message(&pins),
        Decision::Dispatched(Dispatch::Geo)
    ));
}

#[test]
fn bot_author_is_filtered_before_everything() {
    let request = bot_request("?chat hello");
    let pins = vec!["?chat be terse".to_string()];
    assert!(matches!(request.decide_message(&pins), Decision::Filtered));
}

#[test]
fn system_author_is_filtered_before_everything() {
    let tokens = RKBTokens::new(String::new()).unwrap();
    let request = RKBServiceRequest::new(false, true, "?help".to_string(), 1, tokens);
    assert!(matches!(request.decide_message(&Vec::new()), Decision::Filtered));
}

#[test]
fn is_user_message_checks_both_flags() {
    assert!(human_request("x").is_user_message());
    assert!(!bot_request("x").is_user_message());
}

#[test]
fn get_content_trims_the_argument() {
    let request = human_request("?chat   what is rust?  ");
    assert_eq!(request.get_content().unwrap(), "what is rust?");
    assert!(human_request("?chat").get_content().is_none());
}

#[test]
fn timer_action_through_request() {
    let request = human_request("?timer 90s drink water");
    let timer = request.timer(1000).unwrap();
    assert_eq!(timer.dob, 1000);
    assert_eq!(timer.delta, 90);
    assert_eq!(timer.recalled_message, "drink water");
}

#[test]
fn timer_action_without_argument_is_rejected() {
    let request = human_request("?timer");
    assert!(matches!(
        request.timer(0),
        Err(RKBServiceRequestErr::Timer(
            rustykelvinbot::action::timer::Error::CannotParseEmptyUserInputTime
        ))
    ));
}
