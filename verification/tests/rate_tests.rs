use term_video::rate::{
    choose_frame_rate, effective_frame_rate, frame_interval_micros, parse_frame_rate,
};

fn parse(s: &str) -> Option<u32> {
    parse_frame_rate(&s.as_bytes().to_vec())
}

#[test]
fn parses_plain_rationals() {
    assert_eq!(parse("30/1"), Some(30));
    assert_eq!(parse("30000/1001"), Some(29));
    assert_eq!(parse("24000/1001"), Some(23));
    assert_eq!(parse("5/2"), Some(2));
    assert_eq!(parse("4294967295/1"), Some(u32::MAX));
}

#[test]
fn trims_surrounding_whitespace() {
    assert_eq!(parse("30000/1001\n"), Some(29));
    assert_eq!(parse("  25/1 \t\r\n"), Some(25));
}

#[test]
fn malformed_output_is_treated_as_absent() {
    assert_eq!(parse(""), None);
    assert_eq!(parse("nonsense"), None);
    assert_eq!(parse("30"), None);
    assert_eq!(parse("/1"), None);
    assert_eq!(parse("30/"), None);
    assert_eq!(parse("30//1"), None);
    assert_eq!(parse("a/1"), None);
    assert_eq!(parse("30/b"), None);
    assert_eq!(parse("-30/1"), None);
    assert_eq!(parse("29.97/1"), None);
    assert_eq!(parse("30 /1"), None);
}

#[test]
fn unusable_values_are_treated_as_absent() {
    assert_eq!(parse("1/0"), None);
    assert_eq!(parse("0/1"), None);
    assert_eq!(parse("1/2"), None);
    assert_eq!(parse("4294967296/1"), None);
    assert_eq!(parse("99999999999999999999999999/1"), None);
    assert_eq!(parse("1/99999999999999999999999999"), None);
}

#[test]
fn fallback_rate_is_30_when_probing_yields_nothing() {
    assert_eq!(effective_frame_rate(None), 30);
    assert_eq!(effective_frame_rate(parse("nonsense")), 30);
    assert_eq!(effective_frame_rate(parse("")), 30);
    assert_eq!(effective_frame_rate(Some(24)), 24);
    assert_eq!(effective_frame_rate(parse("24/1")), 24);
}

#[test]
fn an_explicit_rate_wins_over_the_probed_one() {
    assert_eq!(choose_frame_rate(Some(60), Some(24)), 60);
    assert_eq!(choose_frame_rate(None, Some(24)), 24);
    assert_eq!(choose_frame_rate(None, None), 30);
}

#[test]
fn frame_interval_is_a_million_microseconds_over_the_rate() {
    assert_eq!(frame_interval_micros(30), 33333);
    assert_eq!(frame_interval_micros(60), 16666);
    assert_eq!(frame_interval_micros(1), 1_000_000);
    assert_eq!(frame_interval_micros(u32::MAX), 0);
}
