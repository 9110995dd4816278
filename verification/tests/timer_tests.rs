use rustykelvinbot::action::timer::{delta_text, try_deltatime, u64_to_string, Error, Timer};
use rustykelvinbot::err::RKBServiceRequestErr;

#[test]
fn parses_compound_duration() {
    assert_eq!(try_deltatime("1d2h30m").unwrap(), 86400 + 7200 + 1800);
}

#[test]
fn parses_each_unit() {
    assert_eq!(try_deltatime("2dx").unwrap(), 172800); // trailing text never flushed
    assert_eq!(try_deltatime("2d").unwrap(), 172800);
    assert_eq!(try_deltatime("3h").unwrap(), 10800);
    assert_eq!(try_deltatime("4m").unwrap(), 240);
    assert_eq!(try_deltatime("5s").unwrap(), 5);
}

#[test]
fn empty_duration_does_not_follow_pattern() {
    assert!(matches!(try_deltatime(""), Err(Error::DoesntFollowPattern)));
}

#[test]
fn letters_without_units_accumulate_to_zero() {
    assert_eq!(try_deltatime("abc").unwrap(), 0);
}

#[test]
fn unparsable_buffer_at_a_unit_is_overflow() {
    assert!(matches!(try_deltatime("x5d"), Err(Error::Overflow)));
}

#[test]
fn twenty_digit_number_is_overflow() {
    assert!(matches!(try_deltatime("99999999999999999999d"), Err(Error::Overflow)));
}

#[test]
fn accumulation_overflow_is_reported() {
    assert!(matches!(try_deltatime("9223372036854775807s1s"), Err(Error::Overflow)));
}

#[test]
fn timer_rejects_missing_argument() {
    assert!(matches!(
        Timer::try_new(None, 0),
        Err(RKBServiceRequestErr::Timer(Error::CannotParseEmptyUserInputTime))
    ));
}

#[test]
fn timer_rejects_zero_duration() {
    assert!(matches!(
        Timer::try_new(Some("0m".to_string()), 0),
        Err(RKBServiceRequestErr::Timer(Error::CannotParseEmptyUserInputTime))
    ));
}

#[test]
fn timer_rejects_unparsable_text_as_zero_duration() {
    assert!(matches!(
        Timer::try_new(Some("abc".to_string()), 0),
        Err(RKBServiceRequestErr::Timer(Error::CannotParseEmptyUserInputTime))
    ));
}

#[test]
fn timer_rejects_negative_duration() {
    assert!(matches!(
        Timer::try_new(Some("-5m".to_string()), 0),
        Err(RKBServiceRequestErr::Timer(Error::Overflow))
    ));
}

#[test]
fn timer_keeps_recall_message() {
    let timer = Timer::try_new(Some("10s remember the milk".to_string()), 42).unwrap();
    assert_eq!(timer.dob, 42);
    assert_eq!(timer.delta, 10);
    assert_eq!(timer.recalled_message, "remember the milk");
}

#[test]
fn timer_without_recall_has_empty_message() {
    let timer = Timer::try_new(Some("1h".to_string()), 7).unwrap();
    assert_eq!(timer.delta, 3600);
    assert_eq!(timer.recalled_message, "");
}

#[test]
fn renders_numbers_in_decimal() {
    assert_eq!(u64_to_string(0), "0");
    assert_eq!(u64_to_string(7), "7");
    assert_eq!(u64_to_string(1234567890), "1234567890");
}

#[test]
fn renders_duration_breakdown() {
    assert_eq!(delta_text(86400 + 7200 + 1800), "1d2h30m");
    assert_eq!(delta_text(95405), "1d2h30m5s");
    assert_eq!(delta_text(59), "59s");
    assert_eq!(delta_text(0), "");
}

#[test]
fn describes_timer_with_times_and_recall() {
    let timer = Timer::try_new(Some("1d2h30m water plants".to_string()), 0).unwrap();
    let text = timer.describe("START", "END");
    assert_eq!(text, "[Time: 1d2h30m | Start: START | End: END]\nwater plants");
}

#[test]
fn timer_error_messages() {
    assert_eq!(Error::CannotParseEmptyUserInputTime.message(), "user input time is required");
    assert_eq!(Error::Overflow.message(), "user input time is out of bounds");
    assert_eq!(
        Error::DoesntFollowPattern.message(),
        "user input time does not follow standard pattern"
    );
}
