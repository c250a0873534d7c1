use spalhad::duration::{parse_duration, ParseDurationError, TimeSpan};

fn span(secs: u64, subsec_nanos: u32) -> TimeSpan {
    TimeSpan { secs, subsec_nanos }
}

#[test]
fn duration_units() {
    assert_eq!(parse_duration("5ns"), Ok(span(0, 5)));
    assert_eq!(parse_duration("5us"), Ok(span(0, 5_000)));
    assert_eq!(parse_duration("5mcs"), Ok(span(0, 5_000)));
    assert_eq!(parse_duration("200ms"), Ok(span(0, 200_000_000)));
    assert_eq!(parse_duration("90s"), Ok(span(90, 0)));
    assert_eq!(parse_duration("2min"), Ok(span(120, 0)));
}

#[test]
fn duration_carries_into_seconds() {
    assert_eq!(parse_duration("1500ms"), Ok(span(1, 500_000_000)));
    assert_eq!(parse_duration("2000001us"), Ok(span(2, 1_000)));
    assert_eq!(parse_duration("3000000007ns"), Ok(span(3, 7)));
    assert_eq!(
        parse_duration("18446744073709551615ns"),
        Ok(span(18_446_744_073, 709_551_615))
    );
}

#[test]
fn duration_trims_white_space() {
    assert_eq!(parse_duration("  10s\t\n"), Ok(span(10, 0)));
    assert_eq!(parse_duration("\u{a0}10s\u{3000}"), Ok(span(10, 0)));
}

#[test]
fn duration_accepts_plus_and_leading_zeros() {
    assert_eq!(parse_duration("+7s"), Ok(span(7, 0)));
    assert_eq!(parse_duration("007s"), Ok(span(7, 0)));
    assert_eq!(parse_duration("0s"), Ok(span(0, 0)));
}

#[test]
fn duration_unknown_unit() {
    assert_eq!(parse_duration(""), Err(ParseDurationError::UnknownUnit));
    assert_eq!(parse_duration("10"), Err(ParseDurationError::UnknownUnit));
    assert_eq!(parse_duration("10h"), Err(ParseDurationError::UnknownUnit));
    assert_eq!(parse_duration("10 m"), Err(ParseDurationError::UnknownUnit));
    assert_eq!(parse_duration("10S"), Err(ParseDurationError::UnknownUnit));
}

#[test]
fn duration_invalid_scalar() {
    assert_eq!(parse_duration("s"), Err(ParseDurationError::InvalidScalar));
    assert_eq!(parse_duration("ms"), Err(ParseDurationError::InvalidScalar));
    assert_eq!(parse_duration("+s"), Err(ParseDurationError::InvalidScalar));
    assert_eq!(parse_duration("-1s"), Err(ParseDurationError::InvalidScalar));
    assert_eq!(parse_duration("1.5s"), Err(ParseDurationError::InvalidScalar));
    assert_eq!(parse_duration("1 s"), Err(ParseDurationError::InvalidScalar));
    assert_eq!(parse_duration("++1s"), Err(ParseDurationError::InvalidScalar));
    assert_eq!(parse_duration("1ums"), Err(ParseDurationError::InvalidScalar));
    assert_eq!(
        parse_duration("18446744073709551616s"),
        Err(ParseDurationError::InvalidScalar)
    );
}

#[test]
fn duration_unit_names_are_tried_in_order() {
    // "mcs" is tried before "s": the scalar is what stands before "mcs".
    assert_eq!(parse_duration("3mcs"), Ok(span(0, 3_000)));
    // "ns" is tried before "s".
    assert_eq!(parse_duration("3ns"), Ok(span(0, 3)));
    // "mins" ends in "s", and "min" is no number.
    assert_eq!(parse_duration("3mins"), Err(ParseDurationError::InvalidScalar));
}

#[test]
fn duration_minutes_that_do_not_fit() {
    assert_eq!(
        parse_duration("307445734561825860min"),
        Ok(span(18_446_744_073_709_551_600, 0))
    );
    assert_eq!(
        parse_duration("307445734561825861min"),
        Err(ParseDurationError::InvalidScalar)
    );
}

#[test]
fn duration_error_messages() {
    assert_eq!(ParseDurationError::UnknownUnit.message(), "unknown unit");
    assert_eq!(ParseDurationError::InvalidScalar.message(), "invalid duration scalar");
}
