use rustykelvinbot::split_action;

#[test]
fn splits_action_and_argument() {
    let (action, argument) = split_action("?timer 1d2h hello".to_string());
    assert_eq!(action, "timer");
    assert_eq!(argument, "1d2h hello");
}

#[test]
fn splits_action_without_argument() {
    let (action, argument) = split_action("?chat".to_string());
    assert_eq!(action, "chat");
    assert_eq!(argument, "");
}

#[test]
fn strips_every_leading_prefix_character() {
    let (action, argument) = split_action("??chat hi".to_string());
    assert_eq!(action, "chat");
    assert_eq!(argument, "hi");
}

#[test]
fn empty_message_splits_to_empty_pair() {
    let (action, argument) = split_action(String::new());
    assert_eq!(action, "");
    assert_eq!(argument, "");
}

#[test]
fn bare_prefix_splits_to_empty_pair() {
    let (action, argument) = split_action("?".to_string());
    assert_eq!(action, "");
    assert_eq!(argument, "");
}

#[test]
fn splits_at_first_space_only() {
    let (action, argument) = split_action("?weather  now".to_string());
    assert_eq!(action, "weather");
    assert_eq!(argument, " now");
}

#[test]
fn unprefixed_message_is_kept_whole() {
    let (action, argument) = split_action("hello there".to_string());
    assert_eq!(action, "hello");
    assert_eq!(argument, "there");
}
