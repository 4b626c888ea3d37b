use freecaster_grid::numparse::parse_i64;
use freecaster_grid::timeparse::try_parse_until_time;

#[test]
fn plain_decimals() {
    assert_eq!(parse_i64("0"), Some(0));
    assert_eq!(parse_i64("3600"), Some(3600));
    assert_eq!(parse_i64("+17"), Some(17));
    assert_eq!(parse_i64("-17"), Some(-17));
    assert_eq!(parse_i64("000123"), Some(123));
}

#[test]
fn rejects_non_numbers() {
    assert_eq!(parse_i64(""), None);
    assert_eq!(parse_i64("-"), None);
    assert_eq!(parse_i64("+"), None);
    assert_eq!(parse_i64("12a"), None);
    assert_eq!(parse_i64("a12"), None);
    assert_eq!(parse_i64("1 2"), None);
    assert_eq!(parse_i64("1.5"), None);
    assert_eq!(parse_i64("--4"), None);
}

#[test]
fn range_edges() {
    assert_eq!(parse_i64("9223372036854775807"), Some(i64::MAX));
    assert_eq!(parse_i64("9223372036854775808"), None);
    assert_eq!(parse_i64("-9223372036854775808"), Some(i64::MIN));
    assert_eq!(parse_i64("-9223372036854775809"), None);
    assert_eq!(parse_i64("99999999999999999999999999"), None);
}

#[test]
fn matches_std_parsing() {
    for s in [
        "", "0", "-0", "+0", "42", "-42", "+42", "007", "9223372036854775807",
        "9223372036854775808", "-9223372036854775808", "-9223372036854775809", "x", "4x", "x4",
        " 4", "4 ",
    ] {
        assert_eq!(parse_i64(s), s.parse::<i64>().ok(), "input {:?}", s);
    }
}

#[test]
fn until_time_takes_a_plain_timestamp() {
    // A decimal in range stands for itself, whatever `now` is.
    assert_eq!(try_parse_until_time("1431648000", 0), Some(1431648000));
    assert_eq!(try_parse_until_time("-100", 0), Some(-100));
}

#[test]
fn until_time_adds_a_duration_to_now() {
    assert_eq!(try_parse_until_time("1h", 1000), Some(1000 + 3600));
    assert_eq!(try_parse_until_time("1h 30m", 1000), Some(1000 + 5400));
    assert_eq!(try_parse_until_time("90s", -50), Some(40));
}

#[test]
fn until_time_rejects_garbage() {
    assert_eq!(try_parse_until_time("", 0), None);
    assert_eq!(try_parse_until_time("soon", 0), None);
    assert_eq!(try_parse_until_time("1.5", 0), None);
}

#[test]
fn until_time_out_of_calendar_range_is_no_timestamp() {
    // In i64 range, but beyond any representable date, and no duration
    // phrase either: refused.
    assert_eq!(try_parse_until_time("9000000000000000000", 0), None);
}

#[test]
fn duration_phrases_beyond_the_length_cap_are_refused() {
    // Within the cap a phrase parses as usual…
    assert_eq!(try_parse_until_time("19minutes 19seconds", 0), Some(19 * 60 + 19));
    // …past it the phrase is refused without being looked at, the
    // astronomical spellings that could abort the parser included.
    assert_eq!(try_parse_until_time("1hour 1minute 1second", 0), None);
    assert_eq!(try_parse_until_time("5124095576030431h8.5s7.5s", 0), None);
    assert_eq!(try_parse_until_time("18446744073709551615s 1000000000ns", 0), None);
}
