use rustykelvinbot::breakdown_string;

#[test]
fn empty_input_yields_no_segment() {
    let segments = breakdown_string(String::new());
    assert_eq!(segments.len(), 0);
}

#[test]
fn short_input_is_one_segment() {
    let segments = breakdown_string("hello".to_string());
    assert_eq!(segments.len(), 1);
    assert_eq!(segments[0], "hello");
}

#[test]
fn exactly_cap_is_one_segment() {
    let text = "a".repeat(2000);
    let segments = breakdown_string(text.clone());
    assert_eq!(segments.len(), 1);
    assert_eq!(segments[0], text);
}

#[test]
fn one_over_cap_is_two_segments() {
    let text = "a".repeat(2001);
    let segments = breakdown_string(text);
    assert_eq!(segments.len(), 2);
    assert_eq!(segments[0].chars().count(), 2000);
    assert_eq!(segments[1], "a");
}

#[test]
fn every_segment_is_capped_and_at_most_three_come_out() {
    let text = "x".repeat(9000);
    let segments = breakdown_string(text);
    assert_eq!(segments.len(), 3);
    for segment in &segments {
        assert!(segment.chars().count() <= 2000);
    }
}

#[test]
fn concatenation_reproduces_input_up_to_the_cap() {
    let text: String = (0..6001).map(|i| ((b'a' + (i % 26) as u8) as char)).collect();
    let segments = breakdown_string(text.clone());
    assert_eq!(segments.len(), 3);
    let rebuilt: String = segments.into_iter().collect();
    let kept: String = text.chars().take(6000).collect();
    assert_eq!(rebuilt, kept);
}

#[test]
fn concatenation_is_exact_below_the_drop_threshold() {
    let text = "ab".repeat(2500);
    let segments = breakdown_string(text.clone());
    let rebuilt: String = segments.into_iter().collect();
    assert_eq!(rebuilt, text);
}

#[test]
fn multibyte_text_is_cut_by_characters() {
    let text = "é".repeat(2500);
    let segments = breakdown_string(text);
    assert_eq!(segments.len(), 2);
    assert_eq!(segments[0].chars().count(), 2000);
    assert_eq!(segments[1].chars().count(), 500);
}
