use rjwt::parse_duration;
use rjwt::parser_date;
use rjwt::JwtError;

#[test]
fn parse_empty_is_zero() {
    assert_eq!(parse_duration(""), Ok(0));
}

#[test]
fn parse_garbage_is_zero() {
    assert_eq!(parse_duration("garbage"), Ok(0));
}

#[test]
fn parse_abc_is_zero() {
    assert_eq!(parse_duration("abc"), Ok(0));
}

#[test]
fn parse_hours_and_minutes() {
    assert_eq!(parse_duration("1h30m"), Ok(5400));
}

#[test]
fn parse_weeks() {
    assert_eq!(parse_duration("2w"), Ok(1209600));
}

#[test]
fn parse_each_unit() {
    assert_eq!(parse_duration("1s"), Ok(1));
    assert_eq!(parse_duration("1m"), Ok(60));
    assert_eq!(parse_duration("1h"), Ok(3600));
    assert_eq!(parse_duration("1d"), Ok(86400));
    assert_eq!(parse_duration("1w"), Ok(604800));
}

#[test]
fn parse_fragments_with_separators() {
    assert_eq!(parse_duration("first 1h, then 30m!"), Ok(5400));
    assert_eq!(parse_duration("-2w-1s-"), Ok(1209601));
}

#[test]
fn parse_digits_without_unit_are_skipped() {
    assert_eq!(parse_duration("3600"), Ok(0));
    assert_eq!(parse_duration("12x3m"), Ok(180));
}

#[test]
fn parse_leading_zeros() {
    assert_eq!(parse_duration("007s"), Ok(7));
}

#[test]
fn parse_maximal_digit_run() {
    assert_eq!(parse_duration("12m"), Ok(720));
}

#[test]
fn parse_overflow_is_an_error() {
    assert_eq!(
        parse_duration("99999999999999999999s"),
        Err(JwtError::TimestampRange)
    );
    assert_eq!(
        parse_duration("18446744073709551615w"),
        Err(JwtError::TimestampRange)
    );
}

#[test]
fn parse_largest_fitting_value() {
    assert_eq!(parse_duration("18446744073709551615s"), Ok(u64::MAX));
}

#[test]
fn parser_date_output_parses_back() {
    let rendered = parser_date("2w1d3h").unwrap();
    assert_eq!(rjwt::parse_seconds(&rendered), Some(1_306_800));
}

#[test]
fn parser_date_renders_decimal() {
    assert_eq!(parser_date("1h30m"), Ok("5400".to_string()));
    assert_eq!(parser_date("2w"), Ok("1209600".to_string()));
    assert_eq!(parser_date(""), Ok("0".to_string()));
    assert_eq!(parser_date("abc"), Ok("0".to_string()));
}
