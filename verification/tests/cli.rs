use lorri::cli::{duration_fits_exec, human_friendly_duration, parse_duration_secs, parse_u64_exec, IntErrorKind};
use std::time::Duration;

#[test]
fn test_human_friendly_duration() {
    assert_eq!(
        human_friendly_duration("1d"),
        Ok(Duration::from_secs(24 * 60 * 60))
    );
    assert_eq!(
        human_friendly_duration("2d"),
        Ok(Duration::from_secs(2 * 24 * 60 * 60))
    );
    assert_eq!(
        human_friendly_duration("2m"),
        Ok(Duration::from_secs(2 * 30 * 24 * 60 * 60))
    );
    assert_eq!(
        human_friendly_duration("2y"),
        Ok(Duration::from_secs(2 * 365 * 24 * 60 * 60))
    );
    assert!(human_friendly_duration("1").is_err());
    assert!(human_friendly_duration("1dd").is_err());
    assert!(human_friendly_duration("dd").is_err());
    assert!(human_friendly_duration("d").is_err());
    assert!(human_friendly_duration("1j").is_err());
    assert!(human_friendly_duration("é").is_err());
}

#[test]
fn duration_error_messages() {
    assert_eq!(
        human_friendly_duration("1j"),
        Err(String::from("Invalid duration: «1j» should end with d, m or y."))
    );
    assert_eq!(
        human_friendly_duration(""),
        Err(String::from("Invalid duration: «» should end with d, m or y."))
    );
    assert_eq!(
        human_friendly_duration("d"),
        Err(String::from("Invalid duration: «» is not an integer: cannot parse integer from empty string"))
    );
    assert_eq!(
        human_friendly_duration("1dd"),
        Err(String::from("Invalid duration: «1d» is not an integer: invalid digit found in string"))
    );
    assert_eq!(
        human_friendly_duration("99999999999999999999d"),
        Err(String::from("Invalid duration: «99999999999999999999» is not an integer: number too large to fit in target type"))
    );
}

#[test]
fn duration_with_sign_and_zero() {
    assert_eq!(parse_duration_secs("+3d"), Ok(3 * 86400));
    assert_eq!(parse_duration_secs("0y"), Ok(0));
    assert_eq!(
        parse_duration_secs("-3d"),
        Err(String::from("Invalid duration: «-3» is not an integer: invalid digit found in string"))
    );
    assert_eq!(
        parse_duration_secs("+d"),
        Err(String::from("Invalid duration: «+» is not an integer: invalid digit found in string"))
    );
}

#[test]
fn u64_parsing_like_std() {
    assert_eq!(parse_u64_exec("18446744073709551615"), Ok(u64::MAX));
    assert_eq!(parse_u64_exec("18446744073709551616"), Err(IntErrorKind::PosOverflow));
    assert_eq!(parse_u64_exec("12a"), Err(IntErrorKind::InvalidDigit));
    assert_eq!(parse_u64_exec(""), Err(IntErrorKind::Empty));
    assert_eq!(parse_u64_exec("+"), Err(IntErrorKind::InvalidDigit));
    assert_eq!(parse_u64_exec("+007"), Ok(7));
}

#[test]
fn duration_overflow_is_detected() {
    assert!(duration_fits_exec("30d"));
    assert!(duration_fits_exec("1j"));
    assert!(!duration_fits_exec("18446744073709551615d"));
    assert!(duration_fits_exec("213503982334601d"));
    assert!(!duration_fits_exec("213503982334602d"));
    assert!(duration_fits_exec("584942417355y"));
    assert!(!duration_fits_exec("584942417356y"));
}
